//! Interface names that Proxmox and the kernel accept: at most 15 characters drawn
//! from a small ASCII alphabet, rendered from a template and made unique with a short
//! SHA-1 tag when they have to be cut.
use vstd::prelude::*;
use vstd::string::*;
use crate::digest::{sha1, sha1_of, to_hex, hex_lower, lemma_hex_len};
use crate::text::{push_char, push_str, push_decimal, dec, chars_of};

verus! {

/// Maximum length of a kernel interface name.
pub const MAX_IFNAME: usize = 15;

/// ASCII letter or digit.
pub open spec fn is_alnum(c: char) -> bool {
    ('a' <= c && c <= 'z') || ('A' <= c && c <= 'Z') || ('0' <= c && c <= '9')
}

/// ASCII lowercase of a character (other characters unchanged).
pub open spec fn lower(c: char) -> char {
    if 'A' <= c && c <= 'Z' {
        ((c as u32) + 32) as char
    } else {
        c
    }
}

/// A character of an interface name: lowercase letter, digit, `_` or `-`.
pub open spec fn is_name_char(c: char) -> bool {
    ('a' <= c && c <= 'z') || ('0' <= c && c <= '9') || c == '_' || c == '-'
}

/// How `render_template` maps a character: letters, digits, `_` and `-` are kept
/// (lowercased), anything else becomes `_`.
pub open spec fn template_char(c: char) -> char {
    if is_alnum(c) || c == '_' || c == '-' {
        lower(c)
    } else {
        '_'
    }
}

/// A character of a `container_eth_name` name: lowercase letter, digit or `_`.
pub open spec fn is_eth_name_char(c: char) -> bool {
    ('a' <= c && c <= 'z') || ('0' <= c && c <= '9') || c == '_'
}

/// How `container_eth_name` maps a character: letters and digits are kept (lowercased),
/// anything else becomes `_`.
pub open spec fn eth_char(c: char) -> char {
    if is_alnum(c) {
        lower(c)
    } else {
        '_'
    }
}

fn lower_exec(c: char) -> (r: char)
    ensures
        r == lower(c),
{
    if 'A' <= c && c <= 'Z' {
        let u: u32 = c as u32;
        let v: u8 = (u + 32) as u8;
        v as char
    } else {
        c
    }
}

fn is_alnum_exec(c: char) -> (r: bool)
    ensures
        r == is_alnum(c),
{
    ('a' <= c && c <= 'z') || ('A' <= c && c <= 'Z') || ('0' <= c && c <= '9')
}

/// `s` with every occurrence of `pat` replaced by `rep`, scanning left to right
/// without overlaps (what `str::replace` does).
pub open spec fn replaced(s: Seq<char>, pat: Seq<char>, rep: Seq<char>) -> Seq<char>
    recommends
        pat.len() > 0,
    decreases s.len(),
{
    if s.len() == 0 || pat.len() == 0 {
        s
    } else if s.len() >= pat.len() && s.subrange(0, pat.len() as int) == pat {
        rep + replaced(s.subrange(pat.len() as int, s.len() as int), pat, rep)
    } else {
        seq![s[0]] + replaced(s.subrange(1, s.len() as int), pat, rep)
    }
}

fn starts_at(s: &Vec<char>, i: usize, pat: &Vec<char>) -> (r: bool)
    requires
        i <= s@.len(),
    ensures
        r == (s@.len() - i >= pat@.len() && s@.subrange(i as int, i + pat@.len()) == pat@),
{
    let n = s.len();
    if n - i < pat.len() {
        return false;
    }
    let mut k: usize = 0;
    while k < pat.len()
        invariant
            n == s@.len(),
            k <= pat@.len(),
            i <= s@.len(),
            s@.len() - i >= pat@.len(),
            forall|j: int| 0 <= j < k ==> s@[i + j] == pat@[j],
        decreases pat@.len() - k,
    {
        if s[i + k] != pat[k] {
            assert(s@.subrange(i as int, i + pat@.len())[k as int] != pat@[k as int]);
            return false;
        }
        k = k + 1;
    }
    assert(s@.subrange(i as int, i + pat@.len()) =~= pat@);
    true
}

/// Replaces every occurrence of `pat` in `s` by `rep`, left to right.
pub fn replace_all(s: &str, pat: &str, rep: &str) -> (r: String)
    requires
        pat@.len() > 0,
    ensures
        r@ == replaced(s@, pat@, rep@),
{
    let cs = chars_of(s);
    let ps = chars_of(pat);
    let mut out = String::new();
    let mut i: usize = 0;
    assert(cs@.subrange(0, cs@.len() as int) =~= s@);
    assert(out@ =~= Seq::empty());
    assert(out@ + replaced(s@, pat@, rep@) =~= replaced(s@, pat@, rep@));
    while i < cs.len()
        invariant
            cs@ == s@,
            ps@ == pat@,
            pat@.len() > 0,
            i <= cs@.len(),
            out@ + replaced(cs@.subrange(i as int, cs@.len() as int), pat@, rep@) == replaced(s@, pat@, rep@),
        decreases cs@.len() - i,
    {
        let ghost rest = cs@.subrange(i as int, cs@.len() as int);
        let hit = starts_at(&cs, i, &ps);
        if hit {
            assert(rest.subrange(0, pat@.len() as int) =~= cs@.subrange(i as int, i + pat@.len()));
            assert(rest.subrange(pat@.len() as int, rest.len() as int) =~= cs@.subrange(
                i + pat@.len(),
                cs@.len() as int,
            ));
            let ghost before = out@;
            push_str(&mut out, rep);
            assert(out@ + replaced(cs@.subrange(i + pat@.len(), cs@.len() as int), pat@, rep@)
                =~= before + replaced(rest, pat@, rep@));
            i = i + ps.len();
        } else {
            proof {
                if rest.len() >= pat@.len() {
                    assert(rest.subrange(0, pat@.len() as int) =~= cs@.subrange(i as int, i + pat@.len()));
                }
            }
            assert(rest.subrange(1, rest.len() as int) =~= cs@.subrange(i + 1, cs@.len() as int));
            let ghost before = out@;
            push_char(&mut out, cs[i]);
            assert(out@ + replaced(cs@.subrange(i + 1, cs@.len() as int), pat@, rep@)
                =~= before + replaced(rest, pat@, rep@));
            i = i + 1;
        }
    }
    assert(out@ + replaced(cs@.subrange(i as int, cs@.len() as int), pat@, rep@) =~= out@ + Seq::empty());
    out
}

/// Each character mapped by `template_char`.
pub open spec fn template_mapped(s: Seq<char>) -> Seq<char> {
    Seq::new(s.len(), |i: int| template_char(s[i]))
}

/// What `sanitize15` gives for `s`: the mapped name when it fits in 15 characters, else its
/// first 13 characters followed by the first two hex digits of the SHA-1 digest of `s`'s
/// UTF-8 bytes.
pub open spec fn sanitized15(s: Seq<char>) -> Seq<char> {
    let out = template_mapped(s);
    if out.len() <= 15 {
        out
    } else {
        out.subrange(0, 13) + hex_lower(sha1_of(vstd::utf8::encode_utf8(s))).subrange(0, 2)
    }
}

/// Maps each character with `template_char` and cuts the name to 15 characters, marking a
/// cut name with a two-digit hash tag.
pub fn sanitize15(s: &str) -> (r: String)
    ensures
        r@ == sanitized15(s@),
        r@.len() <= 15,
        forall|i: int| 0 <= i < r@.len() ==> is_name_char(#[trigger] r@[i]),
{
    let cs = chars_of(s);
    let mut out = String::new();
    let mut i: usize = 0;
    while i < cs.len()
        invariant
            cs@ == s@,
            i <= cs@.len(),
            out@ == template_mapped(s@.subrange(0, i as int)),
        decreases cs@.len() - i,
    {
        let c = cs[i];
        let m = if is_alnum_exec(c) || c == '_' || c == '-' {
            lower_exec(c)
        } else {
            '_'
        };
        push_char(&mut out, m);
        assert(out@ =~= template_mapped(s@.subrange(0, i + 1)));
        i = i + 1;
    }
    assert(s@.subrange(0, s@.len() as int) =~= s@);
    assert forall|i: int| 0 <= i < out@.len() implies is_name_char(#[trigger] out@[i]) by {
        let c = s@[i];
        if 'A' <= c && c <= 'Z' {
            assert((c as u32) + 32 <= 'z' as u32);
        }
    }
    let n = out.as_str().unicode_len();
    if n <= 15 {
        return out;
    }
    let digest = sha1(s.as_bytes());
    let hex = to_hex(digest.as_slice());
    proof {
        lemma_hex_len(digest@);
        crate::digest::lemma_hex_first(digest@);
        let b = digest@[0];
        assert(b / 16 < 16);
        assert(b % 16 < 16);
    }
    let short = hex.as_str().substring_char(0, 2);
    let mut base = String::from_str(out.as_str().substring_char(0, 13));
    push_str(&mut base, short);
    base
}

/// What `render_template` gives: `{container}` and then `{index}` filled in, the result
/// sanitized to 15 characters.
pub open spec fn rendered(template: Seq<char>, container: Seq<char>, index: u16) -> Seq<char> {
    sanitized15(replaced(replaced(template, "{container}"@, container), "{index}"@, dec(index as nat)))
}

/// Renders an interface name from a template such as `vi{container}`.
pub fn render_template(template: &str, container: &str, index: u16) -> (r: String)
    ensures
        r@ == rendered(template@, container@, index),
        r@.len() <= 15,
        forall|i: int| 0 <= i < r@.len() ==> is_name_char(#[trigger] r@[i]),
{
    proof {
        reveal_strlit("{container}");
        reveal_strlit("{index}");
    }
    let step = replace_all(template, "{container}", container);
    let mut idx = String::new();
    push_decimal(&mut idx, index as u64);
    let filled = replace_all(step.as_str(), "{index}", idx.as_str());
    sanitize15(filled.as_str())
}

/// The digits of `n`, in decimal.
pub proof fn lemma_dec_len(n: nat)
    ensures
        1 <= dec(n).len(),
        n < 10 ==> dec(n).len() == 1,
        n < 100 ==> dec(n).len() <= 2,
        n < 1000 ==> dec(n).len() <= 3,
        n < 10000 ==> dec(n).len() <= 4,
        n < 100000 ==> dec(n).len() <= 5,
    decreases n,
{
    if n >= 10 {
        lemma_dec_len(n / 10);
    }
}

/// The `_eth{index}` suffix.
pub open spec fn eth_suffix(index: u16) -> Seq<char> {
    "_eth"@ + dec(index as nat)
}

/// What `container_eth_name` gives: the container name mapped by `eth_char`, followed by
/// the `_eth{index}` suffix when that fits in 15 characters. A name that has to be cut keeps
/// its first characters, then `_` and the first two hex digits of the SHA-1 of the container
/// name (so that names cut to the same prefix stay apart), then the suffix, 15 characters
/// in all.
pub open spec fn eth_name(container: Seq<char>, index: u16) -> Seq<char> {
    let suffix = eth_suffix(index);
    let mapped = Seq::new(container.len(), |i: int| eth_char(container[i]));
    let keep = 15 - suffix.len();
    if mapped.len() > keep {
        mapped.subrange(0, keep - 3) + seq!['_'] + hex_lower(sha1_of(vstd::utf8::encode_utf8(container))).subrange(0, 2)
            + suffix
    } else {
        mapped + suffix
    }
}

/// Builds the Proxmox-safe name `{container}_eth{index}` (lowercase letters, digits and `_`,
/// at most 15 characters).
pub fn container_eth_name(container: &str, index: u16) -> (r: String)
    ensures
        r@ == eth_name(container@, index),
        r@.len() <= 15,
        forall|i: int| 0 <= i < r@.len() ==> is_eth_name_char(#[trigger] r@[i]),
{
    proof {
        reveal_strlit("_eth");
        lemma_dec_len(index as nat);
    }
    let mut suffix = String::from_str("_eth");
    push_decimal(&mut suffix, index as u64);
    let suffix_len = suffix.as_str().unicode_len();
    let max_base_len: usize = 15 - suffix_len;
    let cs = chars_of(container);
    let mut mapped: Vec<char> = Vec::new();
    let mut i: usize = 0;
    while i < cs.len()
        invariant
            cs@ == container@,
            i <= cs@.len(),
            mapped@ =~= Seq::new(i as nat, |k: int| eth_char(container@[k])),
        decreases cs@.len() - i,
    {
        let c = cs[i];
        let m = if is_alnum_exec(c) {
            lower_exec(c)
        } else {
            '_'
        };
        mapped.push(m);
        i = i + 1;
    }
    let cut = mapped.len() > max_base_len;
    let keep: usize = if cut { max_base_len - 3 } else { mapped.len() };
    let mut name = String::new();
    let mut k: usize = 0;
    while k < keep
        invariant
            k <= keep <= mapped@.len(),
            name@ == mapped@.subrange(0, k as int),
        decreases keep - k,
    {
        push_char(&mut name, mapped[k]);
        assert(name@ =~= mapped@.subrange(0, k + 1));
        k = k + 1;
    }
    assert(mapped@.subrange(0, mapped@.len() as int) =~= mapped@);
    proof {
        lemma_dec_digits(index as nat);
        assert forall|j: int| 0 <= j < mapped@.len() implies is_eth_name_char(#[trigger] mapped@[j]) by {
            let c = container@[j];
            if 'A' <= c && c <= 'Z' {
                assert((c as u32) + 32 <= 'z' as u32);
            }
        }
        assert forall|j: int| 0 <= j < suffix@.len() implies is_eth_name_char(#[trigger] suffix@[j]) by {
            if j >= 4 {
                assert(suffix@[j] == dec(index as nat)[j - 4]);
            }
        }
    }
    if cut {
        let digest = sha1(container.as_bytes());
        let hex = to_hex(digest.as_slice());
        proof {
            lemma_hex_len(digest@);
            crate::digest::lemma_hex_first(digest@);
            let b = digest@[0];
            assert(b / 16 < 16);
            assert(b % 16 < 16);
        }
        let ghost before = name@;
        push_char(&mut name, '_');
        push_str(&mut name, hex.as_str().substring_char(0, 2));
        proof {
            let t = hex@.subrange(0, 2);
            assert(name@ == before + seq!['_'] + t);
            assert forall|j: int| 0 <= j < name@.len() implies is_eth_name_char(#[trigger] name@[j]) by {
                if j < before.len() {
                    assert(name@[j] == mapped@[j]);
                } else if j > before.len() {
                    assert(name@[j] == t[j - before.len() - 1]);
                }
            }
        }
    }
    let ghost base = name@;
    push_str(&mut name, suffix.as_str());
    proof {
        assert forall|j: int| 0 <= j < name@.len() implies is_eth_name_char(#[trigger] name@[j]) by {
            if j < base.len() {
                if !cut {
                    assert(name@[j] == mapped@[j]);
                }
            } else {
                assert(name@[j] == suffix@[j - base.len()]);
            }
        }
    }
    name
}

/// The digits of a number's decimal text are ASCII digits.
proof fn lemma_dec_digits(n: nat)
    ensures
        forall|j: int| 0 <= j < dec(n).len() ==> '0' <= #[trigger] dec(n)[j] <= '9',
    decreases n,
{
    let d = n % 10;
    assert(d + 48 <= '9' as u32);
    assert(d + 48 >= '0' as u32);
    if n >= 10 {
        lemma_dec_digits(n / 10);
        assert forall|j: int| 0 <= j < dec(n).len() implies '0' <= #[trigger] dec(n)[j] <= '9' by {
            if j < dec(n / 10).len() {
                assert(dec(n)[j] == dec(n / 10)[j]);
            } else {
                assert(dec(n)[j] == crate::text::digit_char(d));
            }
        }
    } else {
        assert(dec(n)[0] == crate::text::digit_char(n));
    }
}

} // verus!
