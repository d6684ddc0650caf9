//! Compact JSON text for the library's records: string escaping and the pieces an
//! object is built from, as `serde_json` writes them.
use vstd::prelude::*;
use crate::text::{push_char, push_str, chars_of};

verus! {

/// Lowercase hex digit of a nibble.
pub open spec fn nibble_char(n: nat) -> char {
    if n < 10 {
        (n + 48) as char
    } else {
        (n + 87) as char
    }
}

/// How one character is written inside a JSON string: `"` and `\` escaped, the control
/// characters with a short escape where JSON has one and as `\u00xx` otherwise, every other
/// character as itself.
pub open spec fn escaped_char(c: char) -> Seq<char> {
    if c == '"' {
        seq!['\\', '"']
    } else if c == '\\' {
        seq!['\\', '\\']
    } else if c == '\n' {
        seq!['\\', 'n']
    } else if c == '\r' {
        seq!['\\', 'r']
    } else if c == '\t' {
        seq!['\\', 't']
    } else if (c as u32) == 8 {
        seq!['\\', 'b']
    } else if (c as u32) == 12 {
        seq!['\\', 'f']
    } else if (c as u32) < 32 {
        seq!['\\', 'u', '0', '0', nibble_char((c as u32 / 16) as nat), nibble_char((c as u32 % 16) as nat)]
    } else {
        seq![c]
    }
}

/// The escaped characters of a string, in order.
pub open spec fn escaped(s: Seq<char>) -> Seq<char>
    decreases s.len(),
{
    if s.len() == 0 {
        Seq::empty()
    } else {
        escaped(s.drop_last()) + escaped_char(s.last())
    }
}

/// Escaping a string that starts with `c`: `c`'s escape, then the rest escaped.
pub proof fn lemma_escaped_front(c: char, rest: Seq<char>)
    ensures
        escaped(seq![c] + rest) == escaped_char(c) + escaped(rest),
    decreases rest.len(),
{
    let s = seq![c] + rest;
    if rest.len() == 0 {
        assert(s.drop_last() =~= Seq::<char>::empty());
        assert(escaped(s) =~= escaped_char(c) + escaped(rest));
    } else {
        assert(s.drop_last() =~= seq![c] + rest.drop_last());
        assert(s.last() == rest.last());
        lemma_escaped_front(c, rest.drop_last());
        assert(escaped(s) == escaped(s.drop_last()) + escaped_char(s.last()));
        assert(escaped(rest) == escaped(rest.drop_last()) + escaped_char(rest.last()));
        assert(escaped(s.drop_last()) == escaped_char(c) + escaped(rest.drop_last()));
        assert(escaped(s) =~= escaped_char(c) + escaped(rest));
    }
}

/// An escaped text is at least as long as the text.
pub proof fn lemma_escaped_len(s: Seq<char>)
    ensures
        escaped(s).len() >= s.len(),
    decreases s.len(),
{
    if s.len() > 0 {
        lemma_escaped_len(s.drop_last());
    }
}

/// Escapes can be told apart from their first characters: two texts that start with the
/// escapes of `c` and `d` and are equal have `c == d` and equal remainders.
pub proof fn lemma_escaped_char_prefix(c: char, d: char, t: Seq<char>, u: Seq<char>)
    requires
        escaped_char(c) + t == escaped_char(d) + u,
    ensures
        c == d,
        t == u,
{
    let a = escaped_char(c) + t;
    let b = escaped_char(d) + u;
    assert(a[0] == escaped_char(c)[0]);
    assert(b[0] == escaped_char(d)[0]);
    assert(escaped_char(c).len() >= 1 && escaped_char(d).len() >= 1);
    if escaped_char(c).len() > 1 {
        assert(a[1] == escaped_char(c)[1]);
    }
    if escaped_char(d).len() > 1 {
        assert(b[1] == escaped_char(d)[1]);
    }
    if escaped_char(c).len() == 6 && escaped_char(d).len() == 6 {
        assert(a[4] == escaped_char(c)[4] && a[5] == escaped_char(c)[5]);
        assert(b[4] == escaped_char(d)[4] && b[5] == escaped_char(d)[5]);
        let cc = c as u32;
        let dd = d as u32;
        assert(cc / 16 == dd / 16);
        assert(cc % 16 == dd % 16);
        assert(cc == dd);
    }
    assert(c == d);
    assert(t =~= a.subrange(escaped_char(c).len() as int, a.len() as int));
    assert(u =~= b.subrange(escaped_char(d).len() as int, b.len() as int));
}

/// Escaping is one to one.
pub proof fn lemma_escaped_injective(x: Seq<char>, y: Seq<char>)
    requires
        escaped(x) == escaped(y),
    ensures
        x == y,
    decreases x.len(),
{
    if x.len() == 0 {
        lemma_escaped_len(y);
        if y.len() > 0 {
            assert(y =~= seq![y[0]] + y.subrange(1, y.len() as int));
            lemma_escaped_front(y[0], y.subrange(1, y.len() as int));
        }
        assert(x =~= y);
    } else {
        lemma_escaped_len(x);
        assert(x =~= seq![x[0]] + x.subrange(1, x.len() as int));
        lemma_escaped_front(x[0], x.subrange(1, x.len() as int));
        if y.len() == 0 {
            assert(escaped(y).len() == 0);
        }
        assert(y =~= seq![y[0]] + y.subrange(1, y.len() as int));
        lemma_escaped_front(y[0], y.subrange(1, y.len() as int));
        lemma_escaped_char_prefix(x[0], y[0], escaped(x.subrange(1, x.len() as int)), escaped(y.subrange(1, y.len() as int)));
        lemma_escaped_injective(x.subrange(1, x.len() as int), y.subrange(1, y.len() as int));
        assert(x =~= y);
    }
}

/// Distinct texts make distinct JSON string literals.
pub proof fn lemma_json_str_injective(x: Seq<char>, y: Seq<char>)
    requires
        json_str(x) == json_str(y),
    ensures
        x == y,
{
    assert(escaped(x) =~= json_str(x).subrange(1, json_str(x).len() - 1));
    assert(escaped(y) =~= json_str(y).subrange(1, json_str(y).len() - 1));
    lemma_escaped_injective(x, y);
}

/// A JSON string literal.
pub open spec fn json_str(s: Seq<char>) -> Seq<char> {
    seq!['"'] + escaped(s) + seq!['"']
}

/// A JSON string literal or `null`.
pub open spec fn json_opt_str(o: Option<Seq<char>>) -> Seq<char> {
    match o {
        Some(s) => json_str(s),
        None => "null"@,
    }
}

/// A JSON array of strings.
pub open spec fn json_str_array(items: Seq<Seq<char>>) -> Seq<char> {
    seq!['['] + json_str_items(items) + seq![']']
}

/// The comma-separated string literals of an array.
pub open spec fn json_str_items(items: Seq<Seq<char>>) -> Seq<char>
    decreases items.len(),
{
    if items.len() == 0 {
        Seq::empty()
    } else if items.len() == 1 {
        json_str(items[0])
    } else {
        json_str_items(items.drop_last()) + seq![','] + json_str(items.last())
    }
}

/// `"key":` before a member value.
pub open spec fn json_key(k: Seq<char>) -> Seq<char> {
    json_str(k) + seq![':']
}

fn nibble_exec(n: u32) -> (c: char)
    requires
        n < 16,
    ensures
        c == nibble_char(n as nat),
{
    let b: u8 = n as u8;
    if b < 10 {
        (48u8 + b) as char
    } else {
        (87u8 + b) as char
    }
}

fn push_escaped_char(out: &mut String, c: char)
    ensures
        final(out)@ == old(out)@ + escaped_char(c),
{
    let ghost start = out@;
    let u: u32 = c as u32;
    if c == '"' {
        push_char(out, '\\');
        push_char(out, '"');
    } else if c == '\\' {
        push_char(out, '\\');
        push_char(out, '\\');
    } else if c == '\n' {
        push_char(out, '\\');
        push_char(out, 'n');
    } else if c == '\r' {
        push_char(out, '\\');
        push_char(out, 'r');
    } else if c == '\t' {
        push_char(out, '\\');
        push_char(out, 't');
    } else if u == 8 {
        push_char(out, '\\');
        push_char(out, 'b');
    } else if u == 12 {
        push_char(out, '\\');
        push_char(out, 'f');
    } else if u < 32 {
        push_char(out, '\\');
        push_char(out, 'u');
        push_char(out, '0');
        push_char(out, '0');
        push_char(out, nibble_exec(u / 16));
        push_char(out, nibble_exec(u % 16));
    } else {
        push_char(out, c);
    }
    assert(out@ =~= start + escaped_char(c));
}

/// Appends `s` as a JSON string literal.
pub fn push_json_str(out: &mut String, s: &str)
    ensures
        final(out)@ == old(out)@ + json_str(s@),
{
    let ghost start = out@;
    let cs = chars_of(s);
    push_char(out, '"');
    let mut i: usize = 0;
    while i < cs.len()
        invariant
            cs@ == s@,
            i <= cs@.len(),
            out@ == start + seq!['"'] + escaped(s@.subrange(0, i as int)),
        decreases cs@.len() - i,
    {
        push_escaped_char(out, cs[i]);
        assert(s@.subrange(0, i + 1).drop_last() =~= s@.subrange(0, i as int));
        assert(out@ =~= start + seq!['"'] + escaped(s@.subrange(0, i + 1)));
        i = i + 1;
    }
    assert(s@.subrange(0, s@.len() as int) =~= s@);
    push_char(out, '"');
    assert(out@ =~= start + json_str(s@));
}

/// Appends `"key":`.
pub fn push_json_key(out: &mut String, k: &str)
    ensures
        final(out)@ == old(out)@ + json_key(k@),
{
    let ghost start = out@;
    push_json_str(out, k);
    push_char(out, ':');
    assert(out@ =~= start + json_key(k@));
}

/// Appends a string literal or `null`.
pub fn push_json_opt_str(out: &mut String, o: &Option<String>)
    ensures
        final(out)@ == old(out)@ + json_opt_str(
            match o {
                Some(s) => Some(s@),
                None => None,
            },
        ),
{
    match o {
        Some(s) => push_json_str(out, s.as_str()),
        None => push_str(out, "null"),
    }
}

/// Appends a JSON array of strings.
pub fn push_json_str_array(out: &mut String, items: &Vec<String>)
    ensures
        final(out)@ == old(out)@ + json_str_array(crate::text::texts(items@)),
{
    let ghost start = out@;
    push_char(out, '[');
    let mut i: usize = 0;
    while i < items.len()
        invariant
            i <= items@.len(),
            out@ == start + seq!['['] + json_str_items(crate::text::texts(items@.subrange(0, i as int))),
        decreases items@.len() - i,
    {
        let ghost pre = crate::text::texts(items@.subrange(0, i as int));
        let ghost post = crate::text::texts(items@.subrange(0, i + 1));
        assert(post.drop_last() =~= pre);
        if i > 0 {
            push_char(out, ',');
        }
        push_json_str(out, items[i].as_str());
        proof {
            if i == 0 {
                assert(post[0] == items@[0]@);
            }
        }
        assert(out@ =~= start + seq!['['] + json_str_items(post));
        i = i + 1;
    }
    assert(items@.subrange(0, items@.len() as int) =~= items@);
    push_char(out, ']');
    assert(out@ =~= start + json_str_array(crate::text::texts(items@)));
}


/// Object members `"key":value` (values given as JSON text), joined by commas.
pub open spec fn json_members(ms: Seq<(Seq<char>, Seq<char>)>) -> Seq<char>
    decreases ms.len(),
{
    if ms.len() == 0 {
        Seq::empty()
    } else if ms.len() == 1 {
        json_key(ms[0].0) + ms[0].1
    } else {
        json_members(ms.drop_last()) + seq![','] + json_key(ms.last().0) + ms.last().1
    }
}

/// A JSON object with the given members, in order.
pub open spec fn json_object(ms: Seq<(Seq<char>, Seq<char>)>) -> Seq<char> {
    seq!['{'] + json_members(ms) + seq!['}']
}

/// Builds a JSON object from members whose values are JSON text.
pub fn object_text(ms: &Vec<(String, String)>) -> (r: String)
    ensures
        r@ == json_object(Seq::new(ms@.len(), |i: int| (ms@[i].0@, ms@[i].1@))),
{
    let ghost all = Seq::new(ms@.len(), |i: int| (ms@[i].0@, ms@[i].1@));
    let mut out = String::new();
    push_char(&mut out, '{');
    let mut i: usize = 0;
    while i < ms.len()
        invariant
            i <= ms@.len(),
            all == Seq::new(ms@.len(), |i: int| (ms@[i].0@, ms@[i].1@)),
            out@ == seq!['{'] + json_members(all.subrange(0, i as int)),
        decreases ms@.len() - i,
    {
        let ghost pre = all.subrange(0, i as int);
        let ghost post = all.subrange(0, i + 1);
        assert(post.drop_last() =~= pre);
        let ghost before = out@;
        if i > 0 {
            push_char(&mut out, ',');
        }
        push_json_key(&mut out, ms[i].0.as_str());
        push_str(&mut out, ms[i].1.as_str());
        proof {
            if i == 0 {
                assert(pre =~= Seq::<(Seq<char>, Seq<char>)>::empty());
                assert(post[0] == all[0]);
            }
            assert(out@ =~= seq!['{'] + json_members(post));
        }
        i = i + 1;
    }
    assert(all.subrange(0, ms@.len() as int) =~= all);
    push_char(&mut out, '}');
    assert(out@ =~= json_object(all));
    out
}

/// A string as JSON text.
pub fn string_text(s: &str) -> (r: String)
    ensures
        r@ == json_str(s@),
{
    let mut out = String::new();
    push_json_str(&mut out, s);
    out
}


/// A parsed JSON value.
pub enum Json {
    Null,
    Bool(bool),
    /// A number, as its JSON text.
    Number(String),
    Str(String),
    Array(Vec<Json>),
    /// Members in document order.
    Object(Vec<(String, Json)>),
}

/// The value of the first member named `key`.
pub open spec fn member_value(ms: Seq<(String, Json)>, key: Seq<char>) -> Option<Json>
    decreases ms.len(),
{
    if ms.len() == 0 {
        None
    } else if ms[0].0@ == key {
        Some(ms[0].1)
    } else {
        member_value(ms.subrange(1, ms.len() as int), key)
    }
}

/// The member `key` of an object (`None` for other values).
pub open spec fn json_get(j: Json, key: Seq<char>) -> Option<Json> {
    match j {
        Json::Object(ms) => member_value(ms@, key),
        _ => None,
    }
}

/// The text of a string value.
pub open spec fn json_as_str(o: Option<Json>) -> Option<Seq<char>> {
    match o {
        Some(Json::Str(s)) => Some(s@),
        _ => None,
    }
}

impl Json {
    /// The member `key` of an object.
    pub fn get(&self, key: &str) -> (r: Option<&Json>)
        ensures
            match json_get(*self, key@) {
                Some(v) => r matches Some(x) && *x == v,
                None => r is None,
            },
    {
        match self {
            Json::Object(ms) => {
                let mut i: usize = 0;
                assert(json_get(*self, key@) == member_value(ms@, key@));
                assert(ms@.subrange(0, ms@.len() as int) =~= ms@);
                while i < ms.len()
                    invariant
                        i <= ms@.len(),
                        json_get(*self, key@) == member_value(ms@, key@),
                        member_value(ms@, key@) == member_value(ms@.subrange(i as int, ms@.len() as int), key@),
                    decreases ms@.len() - i,
                {
                    let ghost rest = ms@.subrange(i as int, ms@.len() as int);
                    assert(rest[0] == ms@[i as int]);
                    if crate::text::same_text(ms[i].0.as_str(), key) {
                        assert(member_value(rest, key@) == Some(ms@[i as int].1));
                        return Some(&ms[i].1);
                    }
                    assert(rest.subrange(1, rest.len() as int) =~= ms@.subrange(i + 1, ms@.len() as int));
                    i = i + 1;
                }
                assert(ms@.subrange(i as int, ms@.len() as int) =~= Seq::<(String, Json)>::empty());
                None
            },
            _ => None,
        }
    }

    /// The text of a string value.
    pub fn as_str(&self) -> (r: Option<&str>)
        ensures
            match *self {
                Json::Str(s) => r matches Some(t) && t@ == s@,
                _ => r is None,
            },
    {
        match self {
            Json::Str(s) => Some(s.as_str()),
            _ => None,
        }
    }
}

/// The text of an optional string value.
pub fn opt_as_str(o: Option<&Json>) -> (r: Option<&str>)
    ensures
        match json_as_str(
            match o {
                Some(j) => Some(*j),
                None => None,
            },
        ) {
            Some(s) => r matches Some(t) && t@ == s,
            None => r is None,
        },
{
    match o {
        Some(j) => j.as_str(),
        None => None,
    }
}


/// Two JSON values with the same content: same variant, same texts, and the same
/// elements or members in the same order.
pub open spec fn json_same(a: Json, b: Json) -> bool
    decreases a,
{
    match a {
        Json::Null => b is Null,
        Json::Bool(x) => match b {
            Json::Bool(y) => x == y,
            _ => false,
        },
        Json::Number(x) => match b {
            Json::Number(y) => x@ == y@,
            _ => false,
        },
        Json::Str(x) => match b {
            Json::Str(y) => x@ == y@,
            _ => false,
        },
        Json::Array(xs) => match b {
            Json::Array(ys) => xs@.len() == ys@.len() && forall|i: int|
                0 <= i < xs@.len() ==> json_same(#[trigger] xs@[i], ys@[i]),
            _ => false,
        },
        Json::Object(ms) => match b {
            Json::Object(ns) => ms@.len() == ns@.len() && forall|i: int|
                0 <= i < ms@.len() ==> (#[trigger] ms@[i]).0@ == ns@[i].0@ && json_same(ms@[i].1, ns@[i].1),
            _ => false,
        },
    }
}

/// A copy of a JSON value.
pub fn copy_json(j: &Json) -> (r: Json)
    ensures
        json_same(*j, r),
    decreases j,
{
    match j {
        Json::Null => Json::Null,
        Json::Bool(b) => Json::Bool(*b),
        Json::Number(n) => Json::Number(n.clone()),
        Json::Str(s) => Json::Str(s.clone()),
        Json::Array(xs) => {
            let mut out: Vec<Json> = Vec::new();
            let mut i: usize = 0;
            while i < xs.len()
                invariant
                    *j == Json::Array(*xs),
                    i <= xs@.len(),
                    out@.len() == i,
                    forall|k: int| 0 <= k < i ==> json_same(#[trigger] xs@[k], out@[k]),
                decreases xs@.len() - i,
            {
                proof {
                    broadcast use vstd::std_specs::vec::axiom_vec_decreases_to_view;
                    assert(decreases_to!(*j => (*j)->Array_0));
                    assert(decreases_to!(*xs => xs@));
                    assert(decreases_to!(xs@ => xs@[i as int]));
                    assert(decreases_to!(*j => xs@[i as int]));
                }
                let c = copy_json(&xs[i]);
                out.push(c);
                i = i + 1;
            }
            Json::Array(out)
        },
        Json::Object(ms) => {
            let mut out: Vec<(String, Json)> = Vec::new();
            let mut i: usize = 0;
            while i < ms.len()
                invariant
                    *j == Json::Object(*ms),
                    i <= ms@.len(),
                    out@.len() == i,
                    forall|k: int| 0 <= k < i ==> (#[trigger] ms@[k]).0@ == out@[k].0@ && json_same(ms@[k].1, out@[k].1),
                decreases ms@.len() - i,
            {
                proof {
                    broadcast use vstd::std_specs::vec::axiom_vec_decreases_to_view;
                    assert(decreases_to!(*j => (*j)->Object_0));
                    assert(decreases_to!(*ms => ms@));
                    assert(decreases_to!(ms@ => ms@[i as int]));
                    assert(decreases_to!(ms@[i as int] => ms@[i as int].1));
                    assert(decreases_to!(*j => ms@[i as int].1));
                }
                let c = copy_json(&ms[i].1);
                out.push((ms[i].0.clone(), c));
                i = i + 1;
            }
            Json::Object(out)
        },
    }
}


/// Whether two JSON values have the same content.
pub fn same_json(a: &Json, b: &Json) -> (r: bool)
    ensures
        r == json_same(*a, *b),
    decreases a,
{
    match (a, b) {
        (Json::Null, Json::Null) => true,
        (Json::Bool(x), Json::Bool(y)) => *x == *y,
        (Json::Number(x), Json::Number(y)) => crate::text::same_text(x.as_str(), y.as_str()),
        (Json::Str(x), Json::Str(y)) => crate::text::same_text(x.as_str(), y.as_str()),
        (Json::Array(xs), Json::Array(ys)) => {
            if xs.len() != ys.len() {
                return false;
            }
            let mut i: usize = 0;
            while i < xs.len()
                invariant
                    *a == Json::Array(*xs),
                    *b == Json::Array(*ys),
                    xs@.len() == ys@.len(),
                    i <= xs@.len(),
                    forall|k: int| 0 <= k < i ==> json_same(#[trigger] xs@[k], ys@[k]),
                decreases xs@.len() - i,
            {
                proof {
                    broadcast use vstd::std_specs::vec::axiom_vec_decreases_to_view;
                    assert(decreases_to!(*a => (*a)->Array_0));
                    assert(decreases_to!(*xs => xs@));
                    assert(decreases_to!(xs@ => xs@[i as int]));
                    assert(decreases_to!(*a => xs@[i as int]));
                }
                if !same_json(&xs[i], &ys[i]) {
                    return false;
                }
                i = i + 1;
            }
            true
        },
        (Json::Object(ms), Json::Object(ns)) => {
            if ms.len() != ns.len() {
                return false;
            }
            let mut i: usize = 0;
            while i < ms.len()
                invariant
                    *a == Json::Object(*ms),
                    *b == Json::Object(*ns),
                    ms@.len() == ns@.len(),
                    i <= ms@.len(),
                    forall|k: int| 0 <= k < i ==> (#[trigger] ms@[k]).0@ == ns@[k].0@ && json_same(ms@[k].1, ns@[k].1),
                decreases ms@.len() - i,
            {
                proof {
                    broadcast use vstd::std_specs::vec::axiom_vec_decreases_to_view;
                    assert(decreases_to!(*a => (*a)->Object_0));
                    assert(decreases_to!(*ms => ms@));
                    assert(decreases_to!(ms@ => ms@[i as int]));
                    assert(decreases_to!(ms@[i as int] => ms@[i as int].1));
                    assert(decreases_to!(*a => ms@[i as int].1));
                }
                if !crate::text::same_text(ms[i].0.as_str(), ns[i].0.as_str()) {
                    return false;
                }
                if !same_json(&ms[i].1, &ns[i].1) {
                    return false;
                }
                i = i + 1;
            }
            true
        },
        _ => false,
    }
}

} // verus!
