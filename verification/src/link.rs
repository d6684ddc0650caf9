//! Kernel network links: container ids read from interface names, and link presence.
use vstd::prelude::*;
use vstd::string::*;
use crate::text::{chars_of, string_of, push_str, owned};

verus! {

/// Whether `p` is a prefix of `s`.
pub open spec fn has_prefix(s: Seq<char>, p: Seq<char>) -> bool {
    p.len() <= s.len() && s.subrange(0, p.len() as int) == p
}

/// `s` without the first of the prefixes `veth`, `vid`, `vi`, `tap` (tried in that order)
/// that it starts with.
pub open spec fn strip_vm_prefix(s: Seq<char>) -> Seq<char> {
    if has_prefix(s, "veth"@) {
        s.subrange(4, s.len() as int)
    } else if has_prefix(s, "vid"@) {
        s.subrange(3, s.len() as int)
    } else if has_prefix(s, "vi"@) {
        s.subrange(2, s.len() as int)
    } else if has_prefix(s, "tap"@) {
        s.subrange(3, s.len() as int)
    } else {
        s
    }
}

/// An ASCII digit.
pub open spec fn is_digit(c: char) -> bool {
    '0' <= c && c <= '9'
}

/// The longest prefix of `s` made of ASCII digits.
pub open spec fn leading_digits(s: Seq<char>) -> Seq<char>
    decreases s.len(),
{
    if s.len() > 0 && is_digit(s[0]) {
        seq![s[0]] + leading_digits(s.subrange(1, s.len() as int))
    } else {
        Seq::empty()
    }
}

fn starts_with(s: &Vec<char>, p: &str) -> (r: bool)
    ensures
        r == has_prefix(s@, p@),
{
    let ps = chars_of(p);
    if ps.len() > s.len() {
        return false;
    }
    let mut k: usize = 0;
    while k < ps.len()
        invariant
            ps@ == p@,
            ps@.len() <= s@.len(),
            k <= ps@.len(),
            forall|j: int| 0 <= j < k ==> s@[j] == ps@[j],
        decreases ps@.len() - k,
    {
        if s[k] != ps[k] {
            assert(s@.subrange(0, ps@.len() as int)[k as int] != p@[k as int]);
            return false;
        }
        k = k + 1;
    }
    assert(s@.subrange(0, ps@.len() as int) =~= p@);
    true
}

/// The VM or container id in an interface name such as `veth9000i1` (giving `9000`): the
/// digits that follow the first matching prefix of `veth`, `vid`, `vi`, `tap`, up to the
/// first non-digit; `None` when there are none.
pub fn container_short_name_from_ifname(ifname: &str) -> (r: Option<String>)
    ensures
        leading_digits(strip_vm_prefix(ifname@)).len() == 0 ==> r is None,
        leading_digits(strip_vm_prefix(ifname@)).len() > 0 ==> (r matches Some(v)
            && v@ == leading_digits(strip_vm_prefix(ifname@))),
{
    proof {
        reveal_strlit("veth");
        reveal_strlit("vid");
        reveal_strlit("vi");
        reveal_strlit("tap");
    }
    let cs = chars_of(ifname);
    let start: usize = if starts_with(&cs, "veth") {
        4
    } else if starts_with(&cs, "vid") {
        3
    } else if starts_with(&cs, "vi") {
        2
    } else if starts_with(&cs, "tap") {
        3
    } else {
        0
    };
    let ghost rest = strip_vm_prefix(ifname@);
    assert(rest =~= cs@.subrange(start as int, cs@.len() as int));
    let mut digits: Vec<char> = Vec::new();
    let mut i: usize = start;
    while i < cs.len() && '0' <= cs[i] && cs[i] <= '9'
        invariant
            start <= i <= cs@.len(),
            rest == cs@.subrange(start as int, cs@.len() as int),
            digits@ + leading_digits(cs@.subrange(i as int, cs@.len() as int)) == leading_digits(rest),
        decreases cs@.len() - i,
    {
        let ghost tail = cs@.subrange(i as int, cs@.len() as int);
        assert(tail.subrange(1, tail.len() as int) =~= cs@.subrange(i + 1, cs@.len() as int));
        let ghost before = digits@;
        digits.push(cs[i]);
        assert(digits@ + leading_digits(cs@.subrange(i + 1, cs@.len() as int)) =~= before
            + leading_digits(tail));
        i = i + 1;
    }
    assert(leading_digits(cs@.subrange(i as int, cs@.len() as int)) =~= Seq::empty());
    assert(digits@ =~= leading_digits(rest));
    if digits.len() == 0 {
        None
    } else {
        Some(string_of(digits.as_slice()))
    }
}

/// The sysfs directory of a network link.
pub open spec fn sys_net_path(name: Seq<char>) -> Seq<char> {
    "/sys/class/net/"@ + name
}

/// Calls `std::path::Path::exists` on `path`. What it returns depends on the file system
/// at the time of the call; nothing is claimed of it.
#[verifier::external_body]
pub(crate) fn path_exists(path: &str) -> bool {
    std::path::Path::new(path).exists()
}

/// The sysfs path of the network link `name`.
pub fn link_sys_path(name: &str) -> (r: String)
    ensures
        r@ == sys_net_path(name@),
{
    let mut p = owned("/sys/class/net/");
    push_str(&mut p, name);
    p
}

/// Whether the kernel has a network link named `name`: whether the path `link_sys_path`
/// gives exists. The answer comes from the file system at the time of the call.
pub fn link_exists(name: &str) -> bool {
    path_exists(link_sys_path(name).as_str())
}

} // verus!
