//! Character-level string helpers shared by the naming, rendering and ledger code.
use vstd::prelude::*;
use vstd::string::*;

verus! {

/// The character for a decimal digit.
pub open spec fn digit_char(d: nat) -> char {
    (d + 48) as char
}

/// Decimal representation of a natural number, without leading zeros.
pub open spec fn dec(n: nat) -> Seq<char>
    decreases n,
{
    if n < 10 {
        seq![digit_char(n)]
    } else {
        dec(n / 10).push(digit_char(n % 10))
    }
}

/// Distinct numbers have distinct decimal texts.
pub proof fn lemma_dec_injective(n: nat, m: nat)
    requires
        dec(n) == dec(m),
    ensures
        n == m,
    decreases n,
{
    if n >= 10 {
        assert(dec(n).len() == dec(n / 10).len() + 1);
        assert(dec(n / 10).len() >= 1) by {
            if n / 10 >= 10 {
                assert(dec(n / 10).len() == dec(n / 10 / 10).len() + 1);
            }
        }
    }
    if m >= 10 {
        assert(dec(m).len() == dec(m / 10).len() + 1);
        assert(dec(m / 10).len() >= 1) by {
            if m / 10 >= 10 {
                assert(dec(m / 10).len() == dec(m / 10 / 10).len() + 1);
            }
        }
    }
    if n < 10 && m < 10 {
        assert(dec(n)[0] == digit_char(n));
        assert(dec(m)[0] == digit_char(m));
        assert((n + 48) as char as u32 == n + 48);
        assert((m + 48) as char as u32 == m + 48);
    } else if n >= 10 && m >= 10 {
        assert(dec(n).last() == digit_char(n % 10));
        assert(dec(m).last() == digit_char(m % 10));
        assert((n % 10 + 48) as char as u32 == n % 10 + 48);
        assert((m % 10 + 48) as char as u32 == m % 10 + 48);
        assert(dec(n).drop_last() =~= dec(n / 10));
        assert(dec(m).drop_last() =~= dec(m / 10));
        lemma_dec_injective(n / 10, m / 10);
    }
}

/// Appends one character to a string (`String::push`).
#[verifier::external_body]
pub(crate) fn push_char(s: &mut String, c: char)
    ensures
        final(s)@ == old(s)@.push(c),
{
    s.push(c)
}

/// Appends the decimal representation of `n`.
pub fn push_decimal(s: &mut String, n: u64)
    ensures
        final(s)@ == old(s)@ + dec(n as nat),
    decreases n,
{
    if n >= 10 {
        push_decimal(s, n / 10);
    }
    let d: u8 = (n % 10) as u8;
    let c: char = (48u8 + d) as char;
    push_char(s, c);
    proof {
        assert(c == digit_char((n % 10) as nat));
    }
}

/// The decimal representation of `n` as a new string.
pub fn decimal(n: u64) -> (r: String)
    ensures
        r@ == dec(n as nat),
{
    let mut s = String::new();
    push_decimal(&mut s, n);
    s
}


/// Appends a string slice (`String::push_str`).
pub fn push_str(s: &mut String, t: &str)
    ensures
        final(s)@ == old(s)@ + t@,
{
    s.append(t);
}

/// A new string holding the characters of a string slice.
pub fn owned(t: &str) -> (r: String)
    ensures
        r@ == t@,
{
    String::from_str(t)
}

/// The characters of a string slice, one per element.
pub fn chars_of(s: &str) -> (r: Vec<char>)
    ensures
        r@ == s@,
{
    let n = s.unicode_len();
    let mut r: Vec<char> = Vec::new();
    let mut i: usize = 0;
    while i < n
        invariant
            n == s@.len(),
            i <= n,
            r@ == s@.subrange(0, i as int),
        decreases n - i,
    {
        let c = s.get_char(i);
        r.push(c);
        proof {
            assert(r@ =~= s@.subrange(0, i + 1));
        }
        i = i + 1;
    }
    assert(r@ =~= s@);
    r
}

/// A string made of the given characters.
pub fn string_of(cs: &[char]) -> (r: String)
    ensures
        r@ == cs@,
{
    let mut r = String::new();
    let mut i: usize = 0;
    while i < cs.len()
        invariant
            i <= cs@.len(),
            r@ == cs@.subrange(0, i as int),
        decreases cs@.len() - i,
    {
        push_char(&mut r, cs[i]);
        proof {
            assert(r@ =~= cs@.subrange(0, i + 1));
        }
        i = i + 1;
    }
    assert(r@ =~= cs@);
    r
}

/// Whether two string slices hold the same characters.
pub fn same_text(a: &str, b: &str) -> (r: bool)
    ensures
        r == (a@ == b@),
{
    let x = chars_of(a);
    let y = chars_of(b);
    if x.len() != y.len() {
        return false;
    }
    let mut i: usize = 0;
    while i < x.len()
        invariant
            x@ == a@,
            y@ == b@,
            x@.len() == y@.len(),
            i <= x@.len(),
            forall|j: int| 0 <= j < i ==> x@[j] == y@[j],
        decreases x@.len() - i,
    {
        if x[i] != y[i] {
            return false;
        }
        i = i + 1;
    }
    assert(x@ =~= y@);
    true
}

/// Whether a list of strings holds one with the characters of `s`.
pub fn list_contains(list: &Vec<String>, s: &str) -> (r: bool)
    ensures
        r == exists|i: int| 0 <= i < list@.len() && #[trigger] list@[i]@ == s@,
{
    let mut i: usize = 0;
    while i < list.len()
        invariant
            i <= list@.len(),
            forall|j: int| 0 <= j < i ==> #[trigger] list@[j]@ != s@,
        decreases list@.len() - i,
    {
        if same_text(list[i].as_str(), s) {
            return true;
        }
        i = i + 1;
    }
    false
}

/// Appends the UTF-8 encoding of a string slice to a byte buffer.
pub fn push_utf8(out: &mut Vec<u8>, s: &str)
    ensures
        final(out)@ == old(out)@ + s.spec_bytes(),
{
    let bytes = s.as_bytes();
    let mut i: usize = 0;
    while i < bytes.len()
        invariant
            bytes@ == s.spec_bytes(),
            i <= bytes@.len(),
            out@ == old(out)@ + bytes@.subrange(0, i as int),
        decreases bytes@.len() - i,
    {
        out.push(bytes[i]);
        proof {
            assert(out@ =~= old(out)@ + bytes@.subrange(0, i + 1));
        }
        i = i + 1;
    }
    assert(bytes@.subrange(0, bytes@.len() as int) =~= bytes@);
}

/// The `k` least significant bytes of `n`, least significant first.
pub open spec fn le_bytes(n: nat, k: nat) -> Seq<u8>
    decreases k,
{
    if k == 0 {
        Seq::empty()
    } else {
        seq![(n % 256) as u8] + le_bytes(n / 256, (k - 1) as nat)
    }
}

/// The numbers that `k` bytes hold: up to 256 to the power `k`.
pub open spec fn byte_bound(k: nat) -> nat
    decreases k,
{
    if k == 0 {
        1
    } else {
        256 * byte_bound((k - 1) as nat)
    }
}

/// Numbers that fit in `k` bytes and have the same `k` little-endian bytes are equal.
pub proof fn lemma_le_bytes_injective(n: nat, m: nat, k: nat)
    requires
        n < byte_bound(k),
        m < byte_bound(k),
        le_bytes(n, k) == le_bytes(m, k),
    ensures
        n == m,
    decreases k,
{
    if k > 0 {
        let b = byte_bound((k - 1) as nat);
        assert(le_bytes(n, k)[0] == (n % 256) as u8);
        assert(le_bytes(m, k)[0] == (m % 256) as u8);
        assert(n % 256 == m % 256);
        assert(le_bytes(n / 256, (k - 1) as nat) =~= le_bytes(n, k).subrange(1, le_bytes(n, k).len() as int));
        assert(le_bytes(m / 256, (k - 1) as nat) =~= le_bytes(m, k).subrange(1, le_bytes(m, k).len() as int));
        assert(n / 256 < b) by (nonlinear_arith)
            requires
                n < 256 * b,
        ;
        assert(m / 256 < b) by (nonlinear_arith)
            requires
                m < 256 * b,
        ;
        lemma_le_bytes_injective(n / 256, m / 256, (k - 1) as nat);
        assert(n == 256 * (n / 256) + n % 256);
        assert(m == 256 * (m / 256) + m % 256);
    }
}

/// Appends the `k` least significant bytes of `n` in little-endian order (`to_le_bytes`).
pub fn push_le(out: &mut Vec<u8>, n: u64, k: usize)
    requires
        k <= 8,
    ensures
        final(out)@ == old(out)@ + le_bytes(n as nat, k as nat),
    decreases k,
{
    if k > 0 {
        out.push((n % 256) as u8);
        push_le(out, n / 256, k - 1);
        proof {
            assert(le_bytes(n as nat, k as nat) == seq![(n % 256) as u8] + le_bytes((n / 256) as nat, (k - 1) as nat));
            assert(final(out)@ =~= old(out)@ + le_bytes(n as nat, k as nat));
        }
    } else {
        assert(final(out)@ =~= old(out)@ + le_bytes(n as nat, k as nat));
    }
}


/// How many entries of `s` equal `k`.
pub open spec fn count_of(s: Seq<Seq<char>>, k: Seq<char>) -> nat
    decreases s.len(),
{
    if s.len() == 0 {
        0
    } else {
        count_of(s.drop_last(), k) + (if s.last() == k { 1nat } else { 0nat })
    }
}

pub proof fn lemma_count_bound(s: Seq<Seq<char>>, k: Seq<char>)
    ensures
        count_of(s, k) <= s.len(),
        !s.contains(k) ==> count_of(s, k) == 0,
    decreases s.len(),
{
    if s.len() > 0 {
        lemma_count_bound(s.drop_last(), k);
        if !s.contains(k) {
            assert forall|i: int| 0 <= i < s.drop_last().len() implies s.drop_last()[i] != k by {
                assert(s[i] == s.drop_last()[i]);
            }
            assert(s[s.len() - 1] == s.last());
        }
    }
}

/// The keys of a tally, in order.
pub open spec fn tally_keys(t: Seq<(String, u64)>) -> Seq<Seq<char>> {
    Seq::new(t.len(), |j: int| t[j].0@)
}

/// `t` counts the entries of `s`: its keys are exactly the distinct entries of `s`, each once,
/// and each count is the number of occurrences of its key.
pub open spec fn is_tally_of(t: Seq<(String, u64)>, s: Seq<Seq<char>>) -> bool {
    &&& forall|a: int, b: int| 0 <= a < b < t.len() ==> t[a].0@ != t[b].0@
    &&& forall|j: int| 0 <= j < t.len() ==> #[trigger] t[j].1 == count_of(s, t[j].0@)
    &&& forall|j: int| 0 <= j < t.len() ==> s.contains(#[trigger] t[j].0@)
    &&& forall|i: int| 0 <= i < s.len() ==> tally_keys(t).contains(#[trigger] s[i])
}

/// The position of the first entry whose key is `s`.
pub fn find_key(t: &Vec<(String, u64)>, s: &str) -> (r: Option<usize>)
    ensures
        match r {
            Some(j) => j < t@.len() && t@[j as int].0@ == s@,
            None => forall|k: int| 0 <= k < t@.len() ==> #[trigger] t@[k].0@ != s@,
        },
{
    let mut j: usize = 0;
    while j < t.len()
        invariant
            j <= t@.len(),
            forall|k: int| 0 <= k < j ==> #[trigger] t@[k].0@ != s@,
        decreases t@.len() - j,
    {
        if same_text(t[j].0.as_str(), s) {
            return Some(j);
        }
        j = j + 1;
    }
    None
}

/// Counts the occurrences of each distinct string, keys in order of first appearance.
pub fn tally(items: &Vec<String>) -> (r: Vec<(String, u64)>)
    requires
        items@.len() < u64::MAX,
    ensures
        is_tally_of(r@, Seq::new(items@.len(), |i: int| items@[i]@)),
{
    let ghost all = Seq::new(items@.len(), |i: int| items@[i]@);
    let mut r: Vec<(String, u64)> = Vec::new();
    let mut i: usize = 0;
    while i < items.len()
        invariant
            i <= items@.len(),
            items@.len() < u64::MAX,
            all == Seq::new(items@.len(), |i: int| items@[i]@),
            is_tally_of(r@, all.subrange(0, i as int)),
        decreases items@.len() - i,
    {
        let ghost pre = all.subrange(0, i as int);
        let ghost post = all.subrange(0, i + 1);
        assert(post.drop_last() =~= pre);
        assert(post.last() == items@[i as int]@);
        let pos = find_key(&r, items[i].as_str());
        let ghost old_r = r@;
        if let Some(j) = pos {
            proof {
                lemma_count_bound(pre, r@[j as int].0@);
            }
            let k = r[j].0.clone();
            let c = r[j].1;
            r.set(j, (k, c + 1));
            proof {
                assert forall|m: int| 0 <= m < r@.len() implies #[trigger] r@[m].1 == count_of(post, r@[m].0@) by {
                    if m != j {
                        assert(old_r[m].0@ != old_r[j as int].0@);
                    }
                }
                assert forall|m: int| 0 <= m < r@.len() implies post.contains(#[trigger] r@[m].0@) by {
                    let w = choose|q: int| 0 <= q < pre.len() && pre[q] == r@[m].0@;
                    assert(post[w] == pre[w]);
                }
                assert forall|q: int| 0 <= q < post.len() implies tally_keys(r@).contains(#[trigger] post[q]) by {
                    if q < pre.len() {
                        assert(post[q] == pre[q]);
                        assert(tally_keys(old_r).contains(pre[q]));
                        let w = choose|w: int| 0 <= w < old_r.len() && tally_keys(old_r)[w] == pre[q];
                        assert(tally_keys(r@)[w] == post[q]);
                    } else {
                        assert(tally_keys(r@)[j as int] == post[q]);
                    }
                }
            }
        } else {
            proof {
                assert(!tally_keys(old_r).contains(items@[i as int]@)) by {
                    if tally_keys(old_r).contains(items@[i as int]@) {
                        let w = choose|w: int| 0 <= w < old_r.len() && tally_keys(old_r)[w] == items@[i as int]@;
                        assert(old_r[w].0@ != items@[i as int]@);
                    }
                }
                assert(!pre.contains(items@[i as int]@));
                lemma_count_bound(pre, items@[i as int]@);
            }
            let k = items[i].clone();
            r.push((k, 1));
            proof {
                assert forall|m: int| 0 <= m < r@.len() implies #[trigger] r@[m].1 == count_of(post, r@[m].0@) by {
                    if m < old_r.len() {
                        assert(r@[m] == old_r[m]);
                        assert(old_r[m].0@ != items@[i as int]@) by {
                            assert(tally_keys(old_r)[m] == old_r[m].0@);
                        }
                    }
                }
                assert forall|m: int| 0 <= m < r@.len() implies post.contains(#[trigger] r@[m].0@) by {
                    if m < old_r.len() {
                        assert(r@[m] == old_r[m]);
                        let w = choose|q: int| 0 <= q < pre.len() && pre[q] == r@[m].0@;
                        assert(post[w] == pre[w]);
                    } else {
                        assert(post[i as int] == r@[m].0@);
                    }
                }
                assert forall|q: int| 0 <= q < post.len() implies tally_keys(r@).contains(#[trigger] post[q]) by {
                    if q < pre.len() {
                        assert(post[q] == pre[q]);
                        assert(tally_keys(old_r).contains(pre[q]));
                        let w = choose|w: int| 0 <= w < old_r.len() && tally_keys(old_r)[w] == pre[q];
                        assert(tally_keys(r@)[w] == post[q]);
                    } else {
                        assert(tally_keys(r@)[old_r.len() as int] == post[q]);
                    }
                }
                assert forall|a: int, b: int| 0 <= a < b < r@.len() implies r@[a].0@ != r@[b].0@ by {
                    if b == old_r.len() {
                        assert(tally_keys(old_r)[a] == old_r[a].0@);
                    }
                }
            }
        }
        i = i + 1;
    }
    assert(all.subrange(0, items@.len() as int) =~= all);
    r
}


/// The views of a list of strings.
pub open spec fn texts(v: Seq<String>) -> Seq<Seq<char>> {
    Seq::new(v.len(), |i: int| v[i]@)
}

/// `r` lists the distinct entries of `s`, each once.
pub open spec fn is_distinct_of(r: Seq<String>, s: Seq<Seq<char>>) -> bool {
    &&& forall|a: int, b: int| 0 <= a < b < r.len() ==> r[a]@ != r[b]@
    &&& forall|j: int| 0 <= j < r.len() ==> s.contains(#[trigger] r[j]@)
    &&& forall|i: int| 0 <= i < s.len() ==> texts(r).contains(#[trigger] s[i])
}

/// The distinct strings of a list, in order of first appearance.
pub fn distinct_texts(items: &Vec<String>) -> (r: Vec<String>)
    requires
        items@.len() < u64::MAX,
    ensures
        is_distinct_of(r@, texts(items@)),
{
    let t = tally(items);
    let ghost s = texts(items@);
    assert(s == Seq::new(items@.len(), |i: int| items@[i]@));
    let mut r: Vec<String> = Vec::new();
    let mut j: usize = 0;
    while j < t.len()
        invariant
            j <= t@.len(),
            r@.len() == j,
            forall|k: int| 0 <= k < j ==> #[trigger] r@[k]@ == t@[k].0@,
        decreases t@.len() - j,
    {
        r.push(t[j].0.clone());
        j = j + 1;
    }
    assert(texts(r@) =~= tally_keys(t@));
    assert forall|j: int| 0 <= j < r@.len() implies s.contains(#[trigger] r@[j]@) by {
        assert(r@[j]@ == t@[j].0@);
    }
    r
}

} // verus!
