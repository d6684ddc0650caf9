//! Reading command output: lines, fields and whitespace trimming, as `str::lines`,
//! `str::split` and `str::trim` do them.
use vstd::prelude::*;
use crate::text::{chars_of, string_of, texts};

verus! {

/// The first position of `c` in `s`.
pub open spec fn index_of(s: Seq<char>, c: char) -> Option<int>
    decreases s.len(),
{
    if s.len() == 0 {
        None
    } else if s[0] == c {
        Some(0)
    } else {
        match index_of(s.subrange(1, s.len() as int), c) {
            Some(k) => Some(k + 1),
            None => None,
        }
    }
}

/// `s` without one trailing carriage return.
pub open spec fn strip_cr(s: Seq<char>) -> Seq<char> {
    if s.len() > 0 && s.last() == '\r' {
        s.drop_last()
    } else {
        s
    }
}

/// The lines of `s` (what `str::lines` yields): split at each `\n`, a `\r` right before
/// the `\n` dropped, no empty line after a final `\n`.
pub open spec fn lines(s: Seq<char>) -> Seq<Seq<char>>
    decreases s.len(),
{
    if s.len() == 0 {
        Seq::empty()
    } else {
        match index_of(s, '\n') {
            Some(k) => if 0 <= k < s.len() {
                seq![strip_cr(s.subrange(0, k))] + lines(s.subrange(k + 1, s.len() as int))
            } else {
                seq![s]
            },
            None => seq![s],
        }
    }
}

/// The pieces of `s` between occurrences of `c` (what `str::split` yields for a character).
pub open spec fn split_on(s: Seq<char>, c: char) -> Seq<Seq<char>>
    decreases s.len(),
{
    match index_of(s, c) {
        Some(k) => if 0 <= k < s.len() {
            seq![s.subrange(0, k)] + split_on(s.subrange(k + 1, s.len() as int), c)
        } else {
            seq![s]
        },
        None => seq![s],
    }
}

/// Splitting gives at least one piece.
pub proof fn lemma_split_nonempty(s: Seq<char>, c: char)
    ensures
        split_on(s, c).len() >= 1,
    decreases s.len(),
{
    match index_of(s, c) {
        Some(k) => {
            if 0 <= k < s.len() {
                lemma_split_nonempty(s.subrange(k + 1, s.len() as int), c);
            }
        },
        None => {},
    }
}

/// `index_of` finds the first occurrence, at or before any occurrence.
pub proof fn lemma_index_of_first(s: Seq<char>, c: char, m: int)
    requires
        0 <= m < s.len(),
        s[m] == c,
    ensures
        index_of(s, c) matches Some(k) && 0 <= k <= m && s[k] == c,
    decreases s.len(),
{
    if s[0] != c {
        let t = s.subrange(1, s.len() as int);
        assert(t[m - 1] == s[m]);
        lemma_index_of_first(t, c, m - 1);
    }
}

/// The last piece of a split is what follows the last separator.
pub proof fn lemma_split_last(x: Seq<char>, b: Seq<char>, c: char)
    requires
        forall|i: int| 0 <= i < b.len() ==> b[i] != c,
    ensures
        split_on(x + seq![c] + b, c).last() == b,
    decreases x.len(),
{
    let s = x + seq![c] + b;
    lemma_index_of_first(s, c, x.len() as int);
    let k = index_of(s, c)->0;
    let rest = s.subrange(k + 1, s.len() as int);
    lemma_split_nonempty(rest, c);
    if k < x.len() {
        let x2 = x.subrange(k + 1, x.len() as int);
        assert(rest =~= x2 + seq![c] + b);
        lemma_split_last(x2, b, c);
    } else {
        assert(rest =~= b);
        if index_of(b, c) is Some {
            lemma_index_of_bound(b, c);
        }
    }
}

/// A whitespace character in the Unicode sense (`char::is_whitespace`).
pub open spec fn is_ws(c: char) -> bool {
    let u = c as u32;
    (9 <= u <= 13) || u == 32 || u == 0x85 || u == 0xA0 || u == 0x1680 || (0x2000 <= u <= 0x200A)
        || u == 0x2028 || u == 0x2029 || u == 0x202F || u == 0x205F || u == 0x3000
}

/// Number of leading whitespace characters.
pub open spec fn lead_ws(s: Seq<char>) -> nat
    decreases s.len(),
{
    if s.len() > 0 && is_ws(s[0]) {
        1 + lead_ws(s.subrange(1, s.len() as int))
    } else {
        0
    }
}

/// `s` without trailing whitespace (`str::trim_end`).
pub open spec fn trim_end(s: Seq<char>) -> Seq<char>
    decreases s.len(),
{
    if s.len() > 0 && is_ws(s.last()) {
        trim_end(s.drop_last())
    } else {
        s
    }
}

/// `s` without leading and trailing whitespace (`str::trim`).
pub open spec fn trim(s: Seq<char>) -> Seq<char> {
    trim_end(s.subrange(lead_ws(s) as int, s.len() as int))
}

fn is_ws_exec(c: char) -> (r: bool)
    ensures
        r == is_ws(c),
{
    let u: u32 = c as u32;
    (9 <= u && u <= 13) || u == 32 || u == 0x85 || u == 0xA0 || u == 0x1680 || (0x2000 <= u && u
        <= 0x200A) || u == 0x2028 || u == 0x2029 || u == 0x202F || u == 0x205F || u == 0x3000
}

/// `index_of` finds an occurrence.
pub proof fn lemma_index_of_bound(s: Seq<char>, c: char)
    ensures
        index_of(s, c) matches Some(k) ==> 0 <= k < s.len() && s[k] == c,
    decreases s.len(),
{
    if s.len() > 0 && s[0] != c {
        lemma_index_of_bound(s.subrange(1, s.len() as int), c);
    }
}

/// The position of `c` in `cs` at or after `from`, as `index_of` on the rest.
fn index_from(cs: &Vec<char>, from: usize, c: char) -> (r: Option<usize>)
    requires
        from <= cs@.len(),
    ensures
        match r {
            Some(j) => from <= j < cs@.len() && index_of(cs@.subrange(from as int, cs@.len() as int), c)
                == Some(j - from),
            None => index_of(cs@.subrange(from as int, cs@.len() as int), c) is None,
        },
    decreases cs@.len() - from,
{
    let ghost rest = cs@.subrange(from as int, cs@.len() as int);
    if from == cs.len() {
        return None;
    }
    assert(rest[0] == cs@[from as int]);
    if cs[from] == c {
        return Some(from);
    }
    assert(rest.subrange(1, rest.len() as int) =~= cs@.subrange(from + 1, cs@.len() as int));
    proof {
        lemma_index_of_bound(cs@.subrange(from + 1, cs@.len() as int), c);
    }
    index_from(cs, from + 1, c)
}

fn sub_chars(cs: &Vec<char>, from: usize, to: usize) -> (r: Vec<char>)
    requires
        from <= to <= cs@.len(),
    ensures
        r@ == cs@.subrange(from as int, to as int),
{
    let mut r: Vec<char> = Vec::new();
    let mut i: usize = from;
    while i < to
        invariant
            from <= i <= to <= cs@.len(),
            r@ == cs@.subrange(from as int, i as int),
        decreases to - i,
    {
        r.push(cs[i]);
        assert(r@ =~= cs@.subrange(from as int, i + 1));
        i = i + 1;
    }
    r
}

/// The lines of a text.
pub fn text_lines(s: &str) -> (r: Vec<String>)
    ensures
        texts(r@) == lines(s@),
{
    let cs = chars_of(s);
    let mut out: Vec<String> = Vec::new();
    let mut i: usize = 0;
    assert(cs@.subrange(0, cs@.len() as int) =~= s@);
    assert(texts(out@) + lines(s@) =~= lines(s@));
    while i < cs.len()
        invariant
            cs@ == s@,
            i <= cs@.len(),
            texts(out@) + lines(cs@.subrange(i as int, cs@.len() as int)) == lines(s@),
        decreases cs@.len() - i,
    {
        let ghost rest = cs@.subrange(i as int, cs@.len() as int);
        let ghost before = out@;
        match index_from(&cs, i, '\n') {
            Some(k) => {
                let mut piece = sub_chars(&cs, i, k);
                if piece.len() > 0 && piece[piece.len() - 1] == '\r' {
                    piece.pop();
                }
                assert(piece@ =~= strip_cr(rest.subrange(0, k - i)));
                out.push(string_of(piece.as_slice()));
                assert(rest.subrange(k - i + 1, rest.len() as int) =~= cs@.subrange(k + 1, cs@.len() as int));
                assert(texts(out@) =~= texts(before) + seq![strip_cr(rest.subrange(0, k - i))]);
                assert(texts(out@) + lines(cs@.subrange(k + 1, cs@.len() as int)) =~= texts(before) + lines(rest));
                i = k + 1;
            },
            None => {
                let piece = sub_chars(&cs, i, cs.len());
                out.push(string_of(piece.as_slice()));
                assert(texts(out@) =~= texts(before) + seq![rest]);
                assert(texts(out@) + lines(cs@.subrange(cs@.len() as int, cs@.len() as int)) =~= texts(before)
                    + lines(rest));
                i = cs.len();
            },
        }
    }
    assert(texts(out@) + lines(cs@.subrange(i as int, cs@.len() as int)) =~= texts(out@));
    out
}

/// The pieces of a text between occurrences of `c`.
pub fn split_char(s: &str, c: char) -> (r: Vec<String>)
    ensures
        texts(r@) == split_on(s@, c),
{
    let cs = chars_of(s);
    let mut out: Vec<String> = Vec::new();
    let mut i: usize = 0;
    assert(cs@.subrange(0, cs@.len() as int) =~= s@);
    assert(texts(out@) + split_on(s@, c) =~= split_on(s@, c));
    let n = cs.len();
    loop
        invariant
            n == cs@.len(),
            cs@ == s@,
            i <= cs@.len(),
            texts(out@) + split_on(cs@.subrange(i as int, cs@.len() as int), c) == split_on(s@, c),
        decreases cs@.len() - i,
    {
        let ghost rest = cs@.subrange(i as int, cs@.len() as int);
        let ghost before = out@;
        match index_from(&cs, i, c) {
            Some(k) => {
                let piece = sub_chars(&cs, i, k);
                assert(piece@ =~= rest.subrange(0, k - i));
                out.push(string_of(piece.as_slice()));
                assert(rest.subrange(k - i + 1, rest.len() as int) =~= cs@.subrange(k + 1, cs@.len() as int));
                assert(texts(out@) + split_on(cs@.subrange(k + 1, cs@.len() as int), c) =~= texts(before)
                    + split_on(rest, c));
                i = k + 1;
            },
            None => {
                let piece = sub_chars(&cs, i, cs.len());
                out.push(string_of(piece.as_slice()));
                assert(texts(out@) =~= texts(before) + split_on(rest, c));
                return out;
            },
        }
    }
}

/// A text without its first `n` characters.
pub fn skip_text(s: &str, n: usize) -> (r: String)
    requires
        n <= s@.len(),
    ensures
        r@ == s@.skip(n as int),
{
    let cs = chars_of(s);
    let rest = sub_chars(&cs, n, cs.len());
    string_of(rest.as_slice())
}

/// `s` without leading and trailing whitespace.
pub fn trim_text(s: &str) -> (r: String)
    ensures
        r@ == trim(s@),
{
    let cs = chars_of(s);
    let mut a: usize = 0;
    assert(cs@.subrange(0, cs@.len() as int) =~= s@);
    while a < cs.len() && is_ws_exec(cs[a])
        invariant
            cs@ == s@,
            a <= cs@.len(),
            lead_ws(s@) == a + lead_ws(cs@.subrange(a as int, cs@.len() as int)),
        decreases cs@.len() - a,
    {
        assert(cs@.subrange(a as int, cs@.len() as int).subrange(1, cs@.len() - a) =~= cs@.subrange(
            a + 1,
            cs@.len() as int,
        ));
        a = a + 1;
    }
    let ghost mid = cs@.subrange(a as int, cs@.len() as int);
    assert(lead_ws(mid) == 0);
    let mut b: usize = cs.len();
    while b > a && is_ws_exec(cs[b - 1])
        invariant
            a <= b <= cs@.len(),
            trim_end(mid) == trim_end(cs@.subrange(a as int, b as int)),
        decreases b,
    {
        assert(cs@.subrange(a as int, b as int).drop_last() =~= cs@.subrange(a as int, b - 1));
        b = b - 1;
    }
    let piece = sub_chars(&cs, a, b);
    string_of(piece.as_slice())
}

/// `s` without trailing whitespace.
pub fn trim_end_text(s: &str) -> (r: String)
    ensures
        r@ == trim_end(s@),
{
    let cs = chars_of(s);
    let mut b: usize = cs.len();
    assert(cs@.subrange(0, cs@.len() as int) =~= s@);
    while b > 0 && is_ws_exec(cs[b - 1])
        invariant
            b <= cs@.len(),
            trim_end(s@) == trim_end(cs@.subrange(0, b as int)),
        decreases b,
    {
        assert(cs@.subrange(0, b as int).drop_last() =~= cs@.subrange(0, b - 1));
        b = b - 1;
    }
    let piece = sub_chars(&cs, 0, b);
    string_of(piece.as_slice())
}

/// Whether `s` ends with `suffix`.
pub open spec fn has_suffix(s: Seq<char>, suffix: Seq<char>) -> bool {
    suffix.len() <= s.len() && s.subrange(s.len() - suffix.len(), s.len() as int) == suffix
}

/// Whether a text ends with `suffix`.
pub fn ends_with(s: &str, suffix: &str) -> (r: bool)
    ensures
        r == has_suffix(s@, suffix@),
{
    let cs = chars_of(s);
    let ps = chars_of(suffix);
    if ps.len() > cs.len() {
        return false;
    }
    let n = cs.len();
    let off = n - ps.len();
    let mut k: usize = 0;
    while k < ps.len()
        invariant
            n == cs@.len(),
            cs@ == s@,
            ps@ == suffix@,
            ps@.len() <= cs@.len(),
            off == cs@.len() - ps@.len(),
            k <= ps@.len(),
            forall|j: int| 0 <= j < k ==> cs@[off + j] == ps@[j],
        decreases ps@.len() - k,
    {
        if cs[off + k] != ps[k] {
            assert(cs@.subrange(off as int, cs@.len() as int)[k as int] != ps@[k as int]);
            return false;
        }
        k = k + 1;
    }
    assert(cs@.subrange(off as int, cs@.len() as int) =~= ps@);
    true
}


/// Number of leading characters that are not whitespace.
pub open spec fn lead_word(s: Seq<char>) -> nat
    decreases s.len(),
{
    if s.len() > 0 && !is_ws(s[0]) {
        1 + lead_word(s.subrange(1, s.len() as int))
    } else {
        0
    }
}

proof fn lemma_lead_bounds(s: Seq<char>)
    ensures
        lead_ws(s) <= s.len(),
        lead_word(s) <= s.len(),
    decreases s.len(),
{
    if s.len() > 0 {
        lemma_lead_bounds(s.subrange(1, s.len() as int));
    }
}

/// The words of `s` (what `str::split_whitespace` yields): the maximal runs of characters
/// that are not whitespace.
pub open spec fn words(s: Seq<char>) -> Seq<Seq<char>>
    decreases s.len(),
{
    let t = s.subrange(lead_ws(s) as int, s.len() as int);
    if t.len() == 0 || lead_ws(s) > s.len() {
        Seq::empty()
    } else {
        let w = lead_word(t);
        if w == 0 || w > t.len() {
            Seq::empty()
        } else {
            seq![t.subrange(0, w as int)] + words(t.subrange(w as int, t.len() as int))
        }
    }
}

/// The words of a text.
pub fn split_words(s: &str) -> (r: Vec<String>)
    ensures
        texts(r@) == words(s@),
{
    let cs = chars_of(s);
    let n = cs.len();
    let mut out: Vec<String> = Vec::new();
    let mut i: usize = 0;
    assert(cs@.subrange(0, n as int) =~= s@);
    assert(texts(out@) + words(s@) =~= words(s@));
    while i < n
        invariant
            n == cs@.len(),
            cs@ == s@,
            i <= n,
            texts(out@) + words(cs@.subrange(i as int, n as int)) == words(s@),
        decreases n - i,
    {
        let ghost rest = cs@.subrange(i as int, n as int);
        let mut a: usize = i;
        while a < n && is_ws_exec(cs[a])
            invariant
                n == cs@.len(),
                i <= a <= n,
                lead_ws(rest) == (a - i) + lead_ws(cs@.subrange(a as int, n as int)),
            decreases n - a,
        {
            assert(cs@.subrange(a as int, n as int).subrange(1, n - a) =~= cs@.subrange(a + 1, n as int));
            a = a + 1;
        }
        let ghost t = cs@.subrange(a as int, n as int);
        assert(lead_ws(t) == 0);
        assert(rest.subrange(lead_ws(rest) as int, rest.len() as int) =~= t);
        if a == n {
            assert(words(rest) =~= Seq::<Seq<char>>::empty());
            assert(texts(out@) + words(cs@.subrange(n as int, n as int)) =~= texts(out@) + words(rest));
            i = n;
        } else {
            let mut b: usize = a;
            while b < n && !is_ws_exec(cs[b])
                invariant
                    n == cs@.len(),
                    a <= b <= n,
                    lead_word(t) == (b - a) + lead_word(cs@.subrange(b as int, n as int)),
                decreases n - b,
            {
                assert(cs@.subrange(b as int, n as int).subrange(1, n - b) =~= cs@.subrange(b + 1, n as int));
                b = b + 1;
            }
            assert(lead_word(cs@.subrange(b as int, n as int)) == 0);
            let piece = sub_chars(&cs, a, b);
            let ghost before = out@;
            out.push(string_of(piece.as_slice()));
            assert(t.subrange(0, (b - a) as int) =~= cs@.subrange(a as int, b as int));
            assert(t.subrange((b - a) as int, t.len() as int) =~= cs@.subrange(b as int, n as int));
            proof {
                lemma_lead_bounds(rest);
            }
            assert(texts(out@) =~= texts(before).push(cs@.subrange(a as int, b as int)));
            assert(texts(out@) + words(cs@.subrange(b as int, n as int)) =~= texts(before) + words(rest));
            i = b;
        }
    }
    assert(texts(out@) + words(cs@.subrange(n as int, n as int)) =~= texts(out@));
    out
}

/// Whether `p` is a prefix of `s`.
pub open spec fn starts(s: Seq<char>, p: Seq<char>) -> bool {
    p.len() <= s.len() && s.subrange(0, p.len() as int) == p
}

/// Whether a text starts with `p`.
pub fn starts_with_text(s: &str, p: &str) -> (r: bool)
    ensures
        r == starts(s@, p@),
{
    let cs = chars_of(s);
    let ps = chars_of(p);
    if ps.len() > cs.len() {
        return false;
    }
    let mut k: usize = 0;
    while k < ps.len()
        invariant
            cs@ == s@,
            ps@ == p@,
            ps@.len() <= cs@.len(),
            k <= ps@.len(),
            forall|j: int| 0 <= j < k ==> cs@[j] == ps@[j],
        decreases ps@.len() - k,
    {
        if cs[k] != ps[k] {
            assert(cs@.subrange(0, ps@.len() as int)[k as int] != ps@[k as int]);
            return false;
        }
        k = k + 1;
    }
    assert(cs@.subrange(0, ps@.len() as int) =~= ps@);
    true
}

/// The value of a string of decimal digits.
pub open spec fn digits_value(s: Seq<char>) -> nat
    decreases s.len(),
{
    if s.len() == 0 {
        0
    } else {
        digits_value(s.drop_last()) * 10 + ((s.last() as u32) - 48) as nat
    }
}

/// All characters are ASCII digits.
pub open spec fn all_digits(s: Seq<char>) -> bool {
    forall|i: int| 0 <= i < s.len() ==> '0' <= #[trigger] s[i] && s[i] <= '9'
}

/// What `str::parse::<u32>` gives: an optional `+`, then at least one digit and nothing
/// else, with a value that fits in 32 bits.
pub open spec fn parse_u32(s: Seq<char>) -> Option<u32> {
    let d = if s.len() > 0 && s[0] == '+' { s.subrange(1, s.len() as int) } else { s };
    if d.len() > 0 && all_digits(d) && digits_value(d) <= u32::MAX {
        Some(digits_value(d) as u32)
    } else {
        None
    }
}

proof fn lemma_digits_mono(s: Seq<char>)
    requires
        all_digits(s),
        s.len() > 0,
    ensures
        digits_value(s.drop_last()) <= digits_value(s),
{
}

/// Parses a decimal `u32`.
#[verifier::rlimit(40)]
pub fn parse_u32_text(s: &str) -> (r: Option<u32>)
    ensures
        r == parse_u32(s@),
{
    let cs = chars_of(s);
    let n = cs.len();
    let start: usize = if n > 0 && cs[0] == '+' { 1 } else { 0 };
    let ghost d = if s@.len() > 0 && s@[0] == '+' { s@.subrange(1, s@.len() as int) } else { s@ };
    assert(d =~= cs@.subrange(start as int, n as int));
    if start == n {
        return None;
    }
    let mut v: u64 = 0;
    let mut i: usize = start;
    while i < n
        invariant
            n == cs@.len(),
            cs@ == s@,
            d == (if s@.len() > 0 && s@[0] == '+' { s@.subrange(1, s@.len() as int) } else { s@ }),
            start <= i <= n,
            d == cs@.subrange(start as int, n as int),
            all_digits(cs@.subrange(start as int, i as int)),
            v == digits_value(cs@.subrange(start as int, i as int)),
            v <= u32::MAX,
        decreases n - i,
    {
        let c = cs[i];
        if c < '0' || c > '9' {
            assert(d[i - start] == c);
            return None;
        }
        let digit: u64 = ((c as u32) - 48) as u64;
        assert(cs@.subrange(start as int, i + 1).drop_last() =~= cs@.subrange(start as int, i as int));
        let nv = v * 10 + digit;
        if nv > 0xFFFF_FFFF {
            proof {
                if all_digits(d) {
                    lemma_prefix_value_grows(d, i + 1 - start, d.len() as int);
                    assert(d.subrange(0, i + 1 - start) =~= cs@.subrange(start as int, i + 1));
                    assert(d.subrange(0, d.len() as int) =~= d);
                }
            }
            return None;
        }
        v = nv;
        assert(all_digits(cs@.subrange(start as int, i + 1)));
        i = i + 1;
    }
    Some(v as u32)
}

proof fn lemma_prefix_value_grows(s: Seq<char>, a: int, b: int)
    requires
        0 <= a <= b <= s.len(),
        all_digits(s.subrange(0, a)),
        forall|i: int| 0 <= i < s.len() ==> '0' <= #[trigger] s[i] && s[i] <= '9',
    ensures
        digits_value(s.subrange(0, a)) <= digits_value(s.subrange(0, b)),
    decreases b - a,
{
    if a < b {
        lemma_prefix_value_grows(s, a, b - 1);
        assert(s.subrange(0, b).drop_last() =~= s.subrange(0, b - 1));
    }
}


/// The pieces of `s` between non-overlapping occurrences of `sep`, left to right (what
/// `str::split` yields for a non-empty string pattern).
pub open spec fn split_str_on(s: Seq<char>, sep: Seq<char>) -> Seq<Seq<char>>
    decreases s.len(),
{
    if sep.len() == 0 {
        seq![s]
    } else {
        match crate::interfaces::find(s, sep) {
            Some(k) => if 0 <= k && k + sep.len() <= s.len() {
                seq![s.subrange(0, k)] + split_str_on(s.subrange(k + sep.len(), s.len() as int), sep)
            } else {
                seq![s]
            },
            None => seq![s],
        }
    }
}

/// `s` split around the first occurrence of `sep` (`str::split_once`).
pub open spec fn split_once_on(s: Seq<char>, sep: Seq<char>) -> Option<(Seq<char>, Seq<char>)> {
    match crate::interfaces::find(s, sep) {
        Some(k) => if 0 <= k && k + sep.len() <= s.len() {
            Some((s.subrange(0, k), s.subrange(k + sep.len(), s.len() as int)))
        } else {
            None
        },
        None => None,
    }
}

proof fn lemma_find_from_bound(s: Seq<char>, p: Seq<char>, i: int)
    ensures
        crate::interfaces::find_from(s, p, i) matches Some(k) ==> i <= k && k + p.len() <= s.len() && 0 <= k,
    decreases s.len() + 1 - i,
{
    if !(i < 0 || i + p.len() > s.len()) && !crate::interfaces::occurs_at(s, p, i) {
        lemma_find_from_bound(s, p, i + 1);
    }
}

/// Splits a text around the first occurrence of `sep`.
pub fn split_once_text(s: &str, sep: &str) -> (r: Option<(String, String)>)
    ensures
        match split_once_on(s@, sep@) {
            Some((a, b)) => r matches Some((x, y)) && x@ == a && y@ == b,
            None => r is None,
        },
{
    let cs = chars_of(s);
    let ps = chars_of(sep);
    let n = cs.len();
    proof {
        lemma_find_from_bound(s@, sep@, 0);
    }
    match crate::interfaces::find_chars(&cs, &ps, 0) {
        Some(k) => {
            let a = sub_chars(&cs, 0, k);
            let b = sub_chars(&cs, k + ps.len(), cs.len());
            Some((string_of(a.as_slice()), string_of(b.as_slice())))
        },
        None => None,
    }
}

/// Splits a text at each occurrence of a non-empty `sep`.
pub fn split_text(s: &str, sep: &str) -> (r: Vec<String>)
    requires
        sep@.len() > 0,
    ensures
        texts(r@) == split_str_on(s@, sep@),
{
    let cs = chars_of(s);
    let ps = chars_of(sep);
    let n = cs.len();
    let mut out: Vec<String> = Vec::new();
    let mut i: usize = 0;
    assert(cs@.subrange(0, n as int) =~= s@);
    assert(texts(out@) + split_str_on(s@, sep@) =~= split_str_on(s@, sep@));
    loop
        invariant
            n == cs@.len(),
            cs@ == s@,
            ps@ == sep@,
            sep@.len() > 0,
            i <= n,
            texts(out@) + split_str_on(cs@.subrange(i as int, n as int), sep@) == split_str_on(s@, sep@),
        decreases n - i,
    {
        let ghost rest = cs@.subrange(i as int, n as int);
        let ghost before = out@;
        proof {
            lemma_find_from_bound(cs@, sep@, i as int);
            crate::interfaces::lemma_find_shift(cs@, sep@, i as int, i as int);
        }
        match crate::interfaces::find_chars(&cs, &ps, i) {
            Some(k) => {
                let piece = sub_chars(&cs, i, k);
                out.push(string_of(piece.as_slice()));
                assert(rest.subrange(0, k - i) =~= cs@.subrange(i as int, k as int));
                assert(rest.subrange(k - i + sep@.len(), rest.len() as int) =~= cs@.subrange(k + sep@.len(), n as int));
                assert(texts(out@) + split_str_on(cs@.subrange(k + ps@.len(), n as int), sep@) =~= texts(before)
                    + split_str_on(rest, sep@));
                i = k + ps.len();
            },
            None => {
                let piece = sub_chars(&cs, i, n);
                out.push(string_of(piece.as_slice()));
                assert(texts(out@) =~= texts(before) + split_str_on(rest, sep@));
                return out;
            },
        }
    }
}

/// `s` without any leading or trailing `c`.
pub open spec fn trim_char(s: Seq<char>, c: char) -> Seq<char>
    decreases s.len(),
{
    if s.len() > 0 && s[0] == c {
        trim_char(s.subrange(1, s.len() as int), c)
    } else if s.len() > 0 && s.last() == c {
        trim_char(s.drop_last(), c)
    } else {
        s
    }
}

/// Strips leading and trailing occurrences of `c` (`str::trim_matches` with a character).
pub fn trim_char_text(s: &str, c: char) -> (r: String)
    ensures
        r@ == trim_char(s@, c),
{
    let cs = chars_of(s);
    let mut a: usize = 0;
    let mut b: usize = cs.len();
    assert(cs@.subrange(0, cs@.len() as int) =~= s@);
    while a < b && (cs[a] == c || cs[b - 1] == c)
        invariant
            a <= b <= cs@.len(),
            trim_char(s@, c) == trim_char(cs@.subrange(a as int, b as int), c),
        decreases b - a,
    {
        let ghost t = cs@.subrange(a as int, b as int);
        if cs[a] == c {
            assert(t.subrange(1, t.len() as int) =~= cs@.subrange(a + 1, b as int));
            a = a + 1;
        } else {
            assert(t.drop_last() =~= cs@.subrange(a as int, b - 1));
            b = b - 1;
        }
    }
    let piece = sub_chars(&cs, a, b);
    string_of(piece.as_slice())
}

} // verus!
