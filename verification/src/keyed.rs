//! Lists of `(key, value)` pairs used as maps with text keys: each key at most once,
//! an insert replacing the value of a present key in place and appending a new one.
use vstd::prelude::*;
use crate::text::same_text;

verus! {

/// The position of key `k`.
pub open spec fn key_index<V>(s: Seq<(String, V)>, k: Seq<char>) -> Option<int>
    decreases s.len(),
{
    if s.len() == 0 {
        None
    } else if s[0].0@ == k {
        Some(0)
    } else {
        match key_index(s.subrange(1, s.len() as int), k) {
            Some(i) => Some(i + 1),
            None => None,
        }
    }
}

/// The value under key `k`.
pub open spec fn keyed_get<V>(s: Seq<(String, V)>, k: Seq<char>) -> Option<V> {
    match key_index(s, k) {
        Some(i) => Some(s[i].1),
        None => None,
    }
}

/// No key occurs twice.
pub open spec fn keys_distinct<V>(s: Seq<(String, V)>) -> bool {
    forall|i: int, j: int| 0 <= i < j < s.len() ==> s[i].0@ != s[j].0@
}

/// The list with `key` set to `x`.
pub open spec fn upserted<V>(s: Seq<(String, V)>, key: String, x: V) -> Seq<(String, V)> {
    match key_index(s, key@) {
        Some(i) => s.update(i, (key, x)),
        None => s.push((key, x)),
    }
}

/// `key_index` finds the first occurrence.
pub proof fn lemma_key_index<V>(s: Seq<(String, V)>, k: Seq<char>)
    ensures
        match key_index(s, k) {
            Some(i) => 0 <= i < s.len() && s[i].0@ == k && forall|j: int| 0 <= j < i ==> #[trigger] s[j].0@ != k,
            None => forall|j: int| 0 <= j < s.len() ==> #[trigger] s[j].0@ != k,
        },
    decreases s.len(),
{
    if s.len() > 0 && s[0].0@ != k {
        let t = s.subrange(1, s.len() as int);
        lemma_key_index(t, k);
        assert forall|j: int| 1 <= j < s.len() implies #[trigger] s[j] == t[j - 1] by {}
    }
}

/// A key at position `i` of a list with distinct keys is found there.
pub proof fn lemma_key_index_at<V>(s: Seq<(String, V)>, i: int)
    requires
        keys_distinct(s),
        0 <= i < s.len(),
    ensures
        key_index(s, s[i].0@) == Some(i),
{
    lemma_key_index(s, s[i].0@);
    match key_index(s, s[i].0@) {
        Some(j) => {
            if j < i {
            }
            if j > i {
                assert(s[i].0@ != s[i].0@);
            }
        },
        None => {},
    }
}

/// Setting `key` gives it the value, keeps the other keys' values, keeps keys distinct, and
/// the keys become the old keys with `key` added.
pub proof fn lemma_upserted<V>(s: Seq<(String, V)>, key: String, x: V)
    requires
        keys_distinct(s),
    ensures
        keys_distinct(upserted(s, key, x)),
        keyed_get(upserted(s, key, x), key@) == Some(x),
        forall|k: Seq<char>| k != key@ ==> #[trigger] keyed_get(upserted(s, key, x), k) == keyed_get(s, k),
        forall|k: Seq<char>| #[trigger] key_index(upserted(s, key, x), k) is Some <==> (k == key@ || key_index(s, k) is Some),
{
    lemma_key_index(s, key@);
    let u = upserted(s, key, x);
    assert forall|i: int, j: int| 0 <= i < j < u.len() implies u[i].0@ != u[j].0@ by {
        match key_index(s, key@) {
            Some(p) => {
                if i != p && j != p {
                } else if i == p {
                    assert(s[j].0@ != s[p].0@);
                } else {
                    assert(s[i].0@ != s[p].0@);
                }
            },
            None => {
                if j == s.len() {
                    assert(s[i].0@ != key@);
                }
            },
        }
    }
    match key_index(s, key@) {
        Some(p) => {
            lemma_key_index_at(u, p);
        },
        None => {
            lemma_key_index_at(u, s.len() as int);
        },
    }
    assert forall|k: Seq<char>| k != key@ implies #[trigger] keyed_get(u, k) == keyed_get(s, k) by {
        lemma_key_index(s, k);
        lemma_key_index(u, k);
        match key_index(s, k) {
            Some(i) => {
                lemma_key_index_at(u, i);
                assert(u[i].0@ == k);
            },
            None => {
                match key_index(u, k) {
                    Some(i) => {
                        if i < s.len() {
                            assert(u[i] == s[i]);
                        }
                    },
                    None => {},
                }
            },
        }
    }
    assert forall|k: Seq<char>| #[trigger] key_index(u, k) is Some <==> (k == key@ || key_index(s, k) is Some) by {
        lemma_key_index(s, k);
        lemma_key_index(u, k);
        if k == key@ {
        } else {
            assert(keyed_get(u, k) == keyed_get(s, k));
        }
    }
}

/// Where setting key `k` puts it: at its position when present, else at the end.
pub open spec fn upsert_pos<V>(s: Seq<(String, V)>, k: Seq<char>) -> int {
    match key_index(s, k) {
        Some(i) => i,
        None => s.len() as int,
    }
}

/// `new` is `old` with the entry of key `k` set in place, or appended when `k` was absent;
/// every other entry is kept.
pub open spec fn is_upsert<V>(old: Seq<(String, V)>, new: Seq<(String, V)>, k: Seq<char>) -> bool {
    let p = upsert_pos(old, k);
    &&& new.len() == (if p < old.len() { old.len() as int } else { old.len() + 1 as int })
    &&& new[p].0@ == k
    &&& forall|i: int| 0 <= i < old.len() && i != p ==> #[trigger] new[i] == old[i]
}

/// `upserted` sets the key in place or appends it.
pub proof fn lemma_upserted_is_upsert<V>(s: Seq<(String, V)>, key: String, x: V)
    ensures
        is_upsert(s, upserted(s, key, x), key@),
        upserted(s, key, x)[upsert_pos(s, key@)] == (key, x),
{
    lemma_key_index(s, key@);
}

/// Setting a key keeps the keys distinct and finds the key where it was set, keeps the
/// value of every other key, and the keys become the old keys with `k` added.
pub proof fn lemma_is_upsert<V>(old: Seq<(String, V)>, new: Seq<(String, V)>, k: Seq<char>)
    requires
        keys_distinct(old),
        is_upsert(old, new, k),
    ensures
        keys_distinct(new),
        key_index(new, k) == Some(upsert_pos(old, k)),
        forall|q: Seq<char>| q != k ==> #[trigger] keyed_get(new, q) == keyed_get(old, q),
        forall|q: Seq<char>| #[trigger] key_index(new, q) is Some <==> (q == k || key_index(old, q) is Some),
{
    lemma_key_index(old, k);
    let p = upsert_pos(old, k);
    let e = new[p];
    assert(new =~= upserted(old, e.0, e.1));
    lemma_upserted(old, e.0, e.1);
    lemma_key_index_at(new, p);
}

/// Sets `key` to `x`.
pub fn upsert<V>(v: &mut Vec<(String, V)>, key: String, x: V)
    ensures
        final(v)@ == upserted(old(v)@, key, x),
{
    proof {
        lemma_key_index(v@, key@);
    }
    let mut i: usize = 0;
    while i < v.len()
        invariant
            i <= v@.len(),
            v@ == old(v)@,
            forall|j: int| 0 <= j < i ==> #[trigger] v@[j].0@ != key@,
        decreases v@.len() - i,
    {
        if same_text(v[i].0.as_str(), key.as_str()) {
            proof {
                lemma_key_index(v@, key@);
                match key_index(v@, key@) {
                    Some(p) => {
                        if p > i {
                            assert(v@[i as int].0@ == key@);
                        }
                    },
                    None => {
                        assert(v@[i as int].0@ == key@);
                    },
                }
            }
            v.set(i, (key, x));
            return;
        }
        i = i + 1;
    }
    proof {
        lemma_key_index(v@, key@);
    }
    v.push((key, x));
}

/// The value under `k`.
pub fn get_keyed<'a, V>(v: &'a Vec<(String, V)>, k: &str) -> (r: Option<&'a V>)
    ensures
        match keyed_get(v@, k@) {
            Some(x) => r matches Some(y) && *y == x,
            None => r is None,
        },
{
    let mut i: usize = 0;
    while i < v.len()
        invariant
            i <= v@.len(),
            forall|j: int| 0 <= j < i ==> #[trigger] v@[j].0@ != k@,
        decreases v@.len() - i,
    {
        if same_text(v[i].0.as_str(), k) {
            proof {
                lemma_key_index(v@, k@);
                match key_index(v@, k@) {
                    Some(p) => {
                        if p > i {
                            assert(v@[i as int].0@ == k@);
                        }
                    },
                    None => {
                        assert(v@[i as int].0@ == k@);
                    },
                }
            }
            return Some(&v[i].1);
        }
        i = i + 1;
    }
    proof {
        lemma_key_index(v@, k@);
    }
    None
}

} // verus!
