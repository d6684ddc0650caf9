//! The managed block of `/etc/network/interfaces` that shows the OVS bridge and its ports
//! to the Proxmox GUI, and the splice that puts it into the file's text.
use vstd::prelude::*;
use vstd::string::*;
use crate::text::{chars_of, push_str, push_char, texts};

verus! {

/// Whether `p` occurs in `s` at position `i`.
pub open spec fn occurs_at(s: Seq<char>, p: Seq<char>, i: int) -> bool {
    0 <= i && i + p.len() <= s.len() && s.subrange(i, i + p.len()) == p
}

/// The first position at or after `i` where `p` occurs in `s`.
pub open spec fn find_from(s: Seq<char>, p: Seq<char>, i: int) -> Option<int>
    decreases s.len() + 1 - i,
{
    if i < 0 || i + p.len() > s.len() {
        None
    } else if occurs_at(s, p, i) {
        Some(i)
    } else {
        find_from(s, p, i + 1)
    }
}

/// The first position where `p` occurs in `s` (what `str::find` gives, counted in characters).
pub open spec fn find(s: Seq<char>, p: Seq<char>) -> Option<int> {
    find_from(s, p, 0)
}

fn occurs_at_exec(s: &Vec<char>, p: &Vec<char>, i: usize) -> (r: bool)
    requires
        i + p@.len() <= s@.len(),
    ensures
        r == occurs_at(s@, p@, i as int),
{
    let n = s.len();
    let mut k: usize = 0;
    while k < p.len()
        invariant
            n == s@.len(),
            i + p@.len() <= s@.len(),
            k <= p@.len(),
            forall|j: int| 0 <= j < k ==> s@[i + j] == p@[j],
        decreases p@.len() - k,
    {
        if s[i + k] != p[k] {
            assert(s@.subrange(i as int, i + p@.len())[k as int] != p@[k as int]);
            return false;
        }
        k = k + 1;
    }
    assert(s@.subrange(i as int, i + p@.len()) =~= p@);
    true
}

/// Searches `s` for `p` from position `from` on.
pub fn find_chars(s: &Vec<char>, p: &Vec<char>, from: usize) -> (r: Option<usize>)
    requires
        from <= s@.len(),
    ensures
        match r {
            Some(i) => find_from(s@, p@, from as int) == Some(i as int) && from <= i && i + p@.len()
                <= s@.len(),
            None => find_from(s@, p@, from as int) is None,
        },
{
    if p.len() == 0 {
        assert(s@.subrange(from as int, from as int) =~= p@);
        return Some(from);
    }
    let mut i: usize = from;
    while i < s.len() && s.len() - i >= p.len()
        invariant
            from <= i <= s@.len(),
            p@.len() > 0,
            find_from(s@, p@, from as int) == find_from(s@, p@, i as int),
        decreases s@.len() + 1 - i,
    {
        if occurs_at_exec(s, p, i) {
            return Some(i);
        }
        i = i + 1;
    }
    None
}

/// `s` with `new_block` in place of the text from the first `begin` to the first `end` after
/// it (both included); without such a pair, `new_block` is appended after a line break
/// added when `s` does not already end with one.
pub open spec fn spliced(s: Seq<char>, begin: Seq<char>, end: Seq<char>, new_block: Seq<char>) -> Seq<char> {
    match find(s, begin) {
        Some(start) => match find(s.subrange(start, s.len() as int), end) {
            Some(e) => s.subrange(0, start) + new_block + s.subrange(start + e + end.len(), s.len() as int),
            None => appended(s, new_block),
        },
        None => appended(s, new_block),
    }
}

/// `s` followed by `new_block` on a line of its own.
pub open spec fn appended(s: Seq<char>, new_block: Seq<char>) -> Seq<char> {
    if s.len() > 0 && s.last() == '\n' {
        s + new_block
    } else {
        s + seq!['\n'] + new_block
    }
}

/// A search from `i` in `s` is a search from `i - start` in the rest from `start`.
pub proof fn lemma_find_shift(s: Seq<char>, p: Seq<char>, start: int, i: int)
    requires
        0 <= start <= i,
        start <= s.len(),
    ensures
        find_from(s.subrange(start, s.len() as int), p, i - start) == match find_from(s, p, i) {
            Some(k) => Some(k - start),
            None => None::<int>,
        },
    decreases s.len() + 1 - i,
{
    let t = s.subrange(start, s.len() as int);
    if i + p.len() > s.len() {
    } else {
        assert(t.subrange(i - start, i - start + p.len()) =~= s.subrange(i, i + p.len()));
        assert(occurs_at(t, p, i - start) == occurs_at(s, p, i));
        if !occurs_at(s, p, i) {
            lemma_find_shift(s, p, start, i + 1);
        }
    }
}

fn push_range(out: &mut String, cs: &Vec<char>, from: usize, to: usize)
    requires
        from <= to <= cs@.len(),
    ensures
        final(out)@ == old(out)@ + cs@.subrange(from as int, to as int),
{
    let ghost head = out@;
    let mut i: usize = from;
    while i < to
        invariant
            from <= i <= to <= cs@.len(),
            out@ == head + cs@.subrange(from as int, i as int),
        decreases to - i,
    {
        push_char(out, cs[i]);
        assert(out@ =~= head + cs@.subrange(from as int, i + 1));
        i = i + 1;
    }
}

proof fn lemma_no_index(s: Seq<char>, c: char)
    ensures
        crate::lines::index_of(s, c) is None ==> forall|k: int| 0 <= k < s.len() ==> s[k] != c,
    decreases s.len(),
{
    if s.len() > 0 && s[0] != c {
        lemma_no_index(s.subrange(1, s.len() as int), c);
        if crate::lines::index_of(s, c) is None {
            assert forall|k: int| 0 <= k < s.len() implies s[k] != c by {
                if k > 0 {
                    assert(s.subrange(1, s.len() as int)[k - 1] == s[k]);
                }
            }
        }
    }
}

proof fn lemma_find_from_hit(s: Seq<char>, p: Seq<char>, i: int)
    ensures
        find_from(s, p, i) matches Some(k) ==> occurs_at(s, p, k),
    decreases s.len() + 1 - i,
{
    if !(i < 0 || i + p.len() > s.len()) && !occurs_at(s, p, i) {
        lemma_find_from_hit(s, p, i + 1);
    }
}

/// Finding a one-character text finds the character.
pub proof fn lemma_find_index_of(s: Seq<char>, c: char)
    ensures
        find(s, "/"@) is Some && c == '/' ==> crate::lines::index_of(s, c) is Some,
{
    reveal_strlit("/");
    lemma_find_from_hit(s, "/"@, 0);
    lemma_no_index(s, c);
    if find(s, "/"@) is Some && c == '/' {
        let k = find(s, "/"@)->0;
        assert(s.subrange(k, k + 1)[0] == s[k]);
    }
}


/// Puts `new_block` in place of the managed block of an interfaces file's text.
pub fn replace_block(content: &str, begin_marker: &str, end_marker: &str, new_block: &str) -> (r: String)
    ensures
        r@ == spliced(content@, begin_marker@, end_marker@, new_block@),
{
    let cs = chars_of(content);
    let bs = chars_of(begin_marker);
    let es = chars_of(end_marker);
    let total = cs.len();
    if let Some(start) = find_chars(&cs, &bs, 0) {
        if let Some(end_abs) = find_chars(&cs, &es, start) {
            proof {
                lemma_find_shift(cs@, es@, start as int, start as int);
            }
            let end_idx = end_abs + es.len();
            let mut result = String::new();
            push_range(&mut result, &cs, 0, start);
            push_str(&mut result, new_block);
            push_range(&mut result, &cs, end_idx, cs.len());
            assert(cs@.subrange(0, start as int) =~= content@.subrange(0, start as int));
            return result;
        } else {
            proof {
                lemma_find_shift(cs@, es@, start as int, start as int);
            }
        }
    }
    let mut result = String::from_str(content);
    if cs.len() == 0 || cs[cs.len() - 1] != '\n' {
        push_char(&mut result, '\n');
    }
    push_str(&mut result, new_block);
    result
}

/// What `find_from` gives: the first occurrence at or after `i`, or none there.
proof fn lemma_find_from_first(s: Seq<char>, p: Seq<char>, i: int)
    requires
        0 <= i,
    ensures
        match find_from(s, p, i) {
            Some(k) => i <= k && occurs_at(s, p, k) && forall|j: int|
                i <= j < k ==> !#[trigger] occurs_at(s, p, j),
            None => forall|j: int| i <= j ==> !#[trigger] occurs_at(s, p, j),
        },
    decreases s.len() + 1 - i,
{
    if i + p.len() > s.len() {
    } else if !occurs_at(s, p, i) {
        lemma_find_from_first(s, p, i + 1);
    }
}

/// The text that an appended block follows: `s`, with a line break added when it does
/// not already end with one.
pub open spec fn lead(s: Seq<char>) -> Seq<char> {
    if s.len() > 0 && s.last() == '\n' {
        s
    } else {
        s + seq!['\n']
    }
}

/// Writing the same managed block a second time leaves the text as the first write left
/// it. This holds where the block begins with the begin marker and its first end marker is
/// its last part, and the text before the first write either holds a begin marker with an
/// end marker after it, or holds no begin marker (not even one that the line break put in
/// before an appended block would complete) while the begin marker holds no line break but
/// at its end.
pub proof fn law_block_rewrite_is_stable(s: Seq<char>, b: Seq<char>, e: Seq<char>, blk: Seq<char>)
    requires
        occurs_at(blk, b, 0),
        find(blk, e) == Some(blk.len() - e.len()),
        match find(s, b) {
            Some(st) => find(s.subrange(st, s.len() as int), e) is Some,
            None => find(lead(s), b) is None && forall|k: int| 0 <= k < b.len() - 1 ==> b[k] != '\n',
        },
    ensures
        spliced(spliced(s, b, e, blk), b, e, blk) == spliced(s, b, e, blk),
{
    let r = spliced(s, b, e, blk);
    let bl = blk.len() as int;
    let le = e.len() as int;
    let lb = b.len() as int;
    lemma_find_from_first(blk, e, 0);
    lemma_find_from_first(s, b, 0);
    match find(s, b) {
        Some(st) => {
            let t = s.subrange(st, s.len() as int);
            lemma_find_from_first(t, e, 0);
            let e0 = find(t, e)->0;
            let post = s.subrange(st + e0 + le, s.len() as int);
            assert(r == s.subrange(0, st) + blk + post);
            // the begin marker is first found where the block starts
            assert(occurs_at(r, b, st)) by {
                assert(r.subrange(st, st + lb) =~= blk.subrange(0, lb));
            }
            assert forall|j: int| 0 <= j < st implies !#[trigger] occurs_at(r, b, j) by {
                if occurs_at(r, b, j) {
                    assert forall|x: int| j <= x < j + lb implies r[x] == s[x] by {
                        if x >= st {
                            assert(blk.subrange(0, lb)[x - st] == blk[x - st]);
                            assert(s.subrange(st, st + lb)[x - st] == s[x]);
                        }
                    }
                    assert(r.subrange(j, j + lb) =~= s.subrange(j, j + lb));
                    assert(occurs_at(s, b, j));
                }
            }
            lemma_find_from_first(r, b, 0);
            assert(find(r, b) == Some(st));
            // and the end marker first after it is the block's own last part
            let u = r.subrange(st, r.len() as int);
            assert(u =~= blk + post);
            assert(occurs_at(u, e, bl - le)) by {
                assert(u.subrange(bl - le, bl) =~= blk.subrange(bl - le, bl));
            }
            assert forall|j: int| 0 <= j < bl - le implies !#[trigger] occurs_at(u, e, j) by {
                if occurs_at(u, e, j) {
                    assert(u.subrange(j, j + le) =~= blk.subrange(j, j + le));
                    assert(occurs_at(blk, e, j));
                }
            }
            lemma_find_from_first(u, e, 0);
            assert(find(u, e) == Some(bl - le));
            assert(r.subrange(0, st) =~= s.subrange(0, st));
            assert(r.subrange(st + bl, r.len() as int) =~= post);
            assert(spliced(r, b, e, blk) =~= r);
        },
        None => {
            let l = lead(s);
            let ll = l.len() as int;
            assert(r =~= l + blk);
            assert(l[ll - 1] == '\n');
            assert(occurs_at(r, b, ll)) by {
                assert(r.subrange(ll, ll + lb) =~= blk.subrange(0, lb));
            }
            lemma_find_from_first(l, b, 0);
            assert forall|j: int| 0 <= j < ll implies !#[trigger] occurs_at(r, b, j) by {
                if occurs_at(r, b, j) {
                    if j + lb <= ll {
                        assert(r.subrange(j, j + lb) =~= l.subrange(j, j + lb));
                        assert(occurs_at(l, b, j));
                    } else {
                        assert(r.subrange(j, j + lb)[ll - 1 - j] == r[ll - 1]);
                        assert(b[ll - 1 - j] == '\n');
                    }
                }
            }
            lemma_find_from_first(r, b, 0);
            assert(find(r, b) == Some(ll));
            let u = r.subrange(ll, r.len() as int);
            assert(u =~= blk);
            assert(r.subrange(0, ll) =~= l);
            assert(r.subrange(ll + bl, r.len() as int) =~= Seq::<char>::empty());
            assert(spliced(r, b, e, blk) =~= r);
        },
    }
}

/// The words of a list joined by single spaces.
pub open spec fn join_spaces(ws: Seq<Seq<char>>) -> Seq<char>
    decreases ws.len(),
{
    if ws.len() == 0 {
        Seq::empty()
    } else if ws.len() == 1 {
        ws[0]
    } else {
        join_spaces(ws.drop_last()) + " "@ + ws.last()
    }
}

/// The stanza of one container port.
pub open spec fn port_stanza(name: Seq<char>, bridge: Seq<char>) -> Seq<char> {
    "auto "@ + name + "\niface "@ + name + " inet manual\n    ovs_type OVSIntPort\n    ovs_bridge "@ + bridge
        + "\n\n"@
}

/// The stanzas of the container ports, in order.
pub open spec fn port_stanzas(ports: Seq<Seq<char>>, bridge: Seq<char>) -> Seq<char>
    decreases ports.len(),
{
    if ports.len() == 0 {
        Seq::empty()
    } else {
        port_stanzas(ports.drop_last(), bridge) + port_stanza(ports.last(), bridge)
    }
}

/// The begin marker of the managed block.
pub open spec fn begin_marker(tag: Seq<char>) -> Seq<char> {
    "# BEGIN "@ + tag + "\n"@
}

/// The end marker of the managed block.
pub open spec fn end_marker(tag: Seq<char>) -> Seq<char> {
    "# END "@ + tag + "\n"@
}

/// The ports listed on the bridge: the uplink first, if any, then the container ports.
pub open spec fn all_ports(ports: Seq<Seq<char>>, uplink: Option<Seq<char>>) -> Seq<Seq<char>> {
    match uplink {
        Some(u) => seq![u] + ports,
        None => ports,
    }
}

/// The header of the managed block and the bridge stanza's first lines.
pub open spec fn block_head(tag: Seq<char>, bridge: Seq<char>) -> Seq<char> {
    begin_marker(tag) + "# Managed by "@ + tag + ". Do not edit.\n"@
        + "# This is for Proxmox GUI visibility only.\n"@
        + "# NetworkManager manages the actual state via D-Bus.\n\n"@
        + "auto "@ + bridge + "\nallow-ovs "@ + bridge + "\niface "@ + bridge
        + " inet manual\n    ovs_type OVSBridge\n"@
}

/// The bridge's `ovs_ports` line, absent when there are no ports.
pub open spec fn ports_line(all: Seq<Seq<char>>) -> Seq<char> {
    if all.len() > 0 {
        "    ovs_ports "@ + join_spaces(all) + "\n"@
    } else {
        Seq::empty()
    }
}

/// The stanza of the bridge's internal port `{bridge}-if`, after the blank line that ends
/// the bridge stanza.
pub open spec fn internal_stanza(bridge: Seq<char>) -> Seq<char> {
    "\n"@ + "auto "@ + bridge + "-if"@ + "\niface "@ + bridge + "-if"@
        + " inet manual\n    ovs_type OVSIntPort\n    ovs_bridge "@ + bridge + "\n\n"@
}

/// The stanza of the uplink port, absent without an uplink.
pub open spec fn uplink_stanza(uplink: Option<Seq<char>>, bridge: Seq<char>) -> Seq<char> {
    match uplink {
        Some(u) => "iface "@ + u + " inet manual\n    ovs_bridge "@ + bridge + "\n    ovs_type OVSPort\n\n"@,
        None => Seq::empty(),
    }
}

/// The container port stanzas, or a note that there are none.
pub open spec fn ports_section(ports: Seq<Seq<char>>, bridge: Seq<char>) -> Seq<char> {
    if ports.len() == 0 {
        "# No container OVS ports detected.\n"@
    } else {
        port_stanzas(ports, bridge)
    }
}

/// The managed block: header, bridge stanza with its `ovs_ports` line (when there is a port),
/// the bridge's internal port, the uplink stanza (when there is an uplink), the container
/// port stanzas (or a note that there are none), and the end marker.
pub open spec fn interfaces_block(tag: Seq<char>, ports: Seq<Seq<char>>, bridge: Seq<char>, uplink: Option<Seq<char>>) -> Seq<char> {
    block_head(tag, bridge) + ports_line(all_ports(ports, uplink)) + internal_stanza(bridge)
        + uplink_stanza(uplink, bridge) + ports_section(ports, bridge) + end_marker(tag)
}

/// Joining with single spaces: one word is itself, and two non-empty lists joined are
/// their joins with one space between.
pub proof fn law_join_spaces_splits(a: Seq<Seq<char>>, b: Seq<Seq<char>>, w: Seq<char>)
    ensures
        join_spaces(seq![w]) == w,
        a.len() > 0 && b.len() > 0 ==> join_spaces(a + b) == join_spaces(a) + " "@ + join_spaces(b),
    decreases b.len(),
{
    if a.len() > 0 && b.len() > 0 {
        let ab = a + b;
        if b.len() == 1 {
            assert(ab.drop_last() =~= a);
            assert(ab.last() == b[0]);
            assert(join_spaces(b) == b[0]);
        } else {
            law_join_spaces_splits(a, b.drop_last(), w);
            assert(ab.drop_last() =~= a + b.drop_last());
            assert(ab.last() == b.last());
            assert(join_spaces(ab) =~= join_spaces(a) + " "@ + join_spaces(b));
        }
    }
}

/// The bridge stanza lists every port on the bridge. Right after the bridge's
/// `ovs_type OVSBridge` line, the rendered block has the line `    ovs_ports ` followed by
/// the uplink (when there is one) and then every container port, in order, joined by single
/// spaces; only when there is neither an uplink nor a container port does the bridge stanza
/// end there, with the blank line before the internal port.
pub proof fn law_bridge_stanza_lists_all_ports(
    tag: Seq<char>,
    ports: Seq<Seq<char>>,
    bridge: Seq<char>,
    uplink: Option<Seq<char>>,
)
    ensures
        ({
            let blk = interfaces_block(tag, ports, bridge, uplink);
            let head = block_head(tag, bridge);
            let words = match uplink {
                Some(u) => seq![u] + ports,
                None => ports,
            };
            let line = "    ovs_ports "@ + join_spaces(words) + "\n"@;
            &&& blk.subrange(0, head.len() as int) == head
            &&& head.subrange(head.len() - 23, head.len() as int) == "    ovs_type OVSBridge\n"@
            &&& (words.len() > 0 ==> blk.subrange(head.len() as int, (head.len() + line.len()) as int) == line)
            &&& (words.len() == 0 ==> blk.subrange(head.len() as int, (head.len() + 6) as int) == "\nauto "@)
        }),
{
    reveal_strlit("    ovs_type OVSBridge\n");
    reveal_strlit(" inet manual\n    ovs_type OVSBridge\n");
    reveal_strlit("\nauto ");
    reveal_strlit("\n");
    reveal_strlit("auto ");
    let blk = interfaces_block(tag, ports, bridge, uplink);
    let head = block_head(tag, bridge);
    let words = match uplink {
        Some(u) => seq![u] + ports,
        None => ports,
    };
    assert(words == all_ports(ports, uplink));
    let line = "    ovs_ports "@ + join_spaces(words) + "\n"@;
    let rest = internal_stanza(bridge) + uplink_stanza(uplink, bridge) + ports_section(ports, bridge) + end_marker(tag);
    assert(blk =~= head + ports_line(words) + rest);
    assert(blk.subrange(0, head.len() as int) =~= head);
    let pre = begin_marker(tag) + "# Managed by "@ + tag + ". Do not edit.\n"@ + "# This is for Proxmox GUI visibility only.\n"@
        + "# NetworkManager manages the actual state via D-Bus.\n\n"@ + "auto "@ + bridge + "\nallow-ovs "@ + bridge
        + "\niface "@ + bridge;
    assert(head == pre + " inet manual\n    ovs_type OVSBridge\n"@);
    assert(head.subrange(head.len() - 23, head.len() as int) =~= "    ovs_type OVSBridge\n"@);
    if words.len() > 0 {
        assert(blk.subrange(head.len() as int, (head.len() + line.len()) as int) =~= line);
    } else {
        assert(rest =~= "\n"@ + ("auto "@ + bridge + "-if"@ + "\niface "@ + bridge + "-if"@
            + " inet manual\n    ovs_type OVSIntPort\n    ovs_bridge "@ + bridge + "\n\n"@) + uplink_stanza(uplink, bridge)
            + ports_section(ports, bridge) + end_marker(tag));
        assert(blk.subrange(head.len() as int, (head.len() + 6) as int) =~= "\nauto "@);
    }
}

/// The block ends with a stanza for each container port, in order, making it an OVS
/// internal port on the bridge, or with a note that there is none, and then the end marker.
pub proof fn law_block_ends_with_port_stanzas(
    tag: Seq<char>,
    ports: Seq<Seq<char>>,
    bridge: Seq<char>,
    uplink: Option<Seq<char>>,
    i: int,
)
    requires
        0 <= i < ports.len(),
    ensures
        ({
            let blk = interfaces_block(tag, ports, bridge, uplink);
            let stanza = "auto "@ + ports[i] + "\niface "@ + ports[i] + " inet manual\n    ovs_type OVSIntPort\n    ovs_bridge "@
                + bridge + "\n\n"@;
            let tail = port_stanzas(ports.subrange(i + 1, ports.len() as int), bridge) + "# END "@ + tag + "\n"@;
            &&& blk.len() >= stanza.len() + tail.len()
            &&& blk.subrange(blk.len() - stanza.len() - tail.len(), blk.len() - tail.len()) == stanza
            &&& blk.subrange(blk.len() - tail.len(), blk.len() as int) == tail
        }),
{
    let blk = interfaces_block(tag, ports, bridge, uplink);
    let stanza = port_stanza(ports[i], bridge);
    lemma_port_stanzas_split(ports, bridge, i);
    let before = block_head(tag, bridge) + ports_line(all_ports(ports, uplink)) + internal_stanza(bridge)
        + uplink_stanza(uplink, bridge) + port_stanzas(ports.subrange(0, i), bridge);
    let rest = port_stanzas(ports.subrange(i + 1, ports.len() as int), bridge);
    let tail = rest + end_marker(tag);
    assert(blk =~= before + stanza + tail);
    assert(blk.subrange(blk.len() - stanza.len() - tail.len(), blk.len() - tail.len()) =~= stanza);
    assert(blk.subrange(blk.len() - tail.len(), blk.len() as int) =~= tail);
    assert(tail =~= rest + "# END "@ + tag + "\n"@);
}

/// The stanzas of a port list split around position `i`.
proof fn lemma_port_stanzas_split(ports: Seq<Seq<char>>, bridge: Seq<char>, i: int)
    requires
        0 <= i < ports.len(),
    ensures
        port_stanzas(ports, bridge) == port_stanzas(ports.subrange(0, i), bridge) + port_stanza(ports[i], bridge)
            + port_stanzas(ports.subrange(i + 1, ports.len() as int), bridge),
    decreases ports.len(),
{
    if i == ports.len() - 1 {
        assert(ports.drop_last() =~= ports.subrange(0, i));
        assert(ports.subrange(i + 1, ports.len() as int) =~= Seq::<Seq<char>>::empty());
        assert(port_stanzas(Seq::<Seq<char>>::empty(), bridge) == Seq::<char>::empty());
        assert(port_stanzas(ports, bridge) =~= port_stanzas(ports.subrange(0, i), bridge) + port_stanza(ports[i], bridge)
            + port_stanzas(ports.subrange(i + 1, ports.len() as int), bridge));
    } else {
        let d = ports.drop_last();
        lemma_port_stanzas_split(d, bridge, i);
        assert(d.subrange(0, i) =~= ports.subrange(0, i));
        let r = ports.subrange(i + 1, ports.len() as int);
        assert(d.subrange(i + 1, d.len() as int) =~= r.drop_last());
        assert(r.last() == ports.last());
        assert(r.len() > 0);
        assert(port_stanzas(ports, bridge) =~= port_stanzas(ports.subrange(0, i), bridge) + port_stanza(ports[i], bridge)
            + port_stanzas(r, bridge));
    }
}

fn push_join(out: &mut String, ws: &Vec<String>)
    ensures
        final(out)@ == old(out)@ + join_spaces(texts(ws@)),
{
    let ghost start = out@;
    let mut i: usize = 0;
    while i < ws.len()
        invariant
            i <= ws@.len(),
            out@ == start + join_spaces(texts(ws@.subrange(0, i as int))),
        decreases ws@.len() - i,
    {
        let ghost pre = texts(ws@.subrange(0, i as int));
        let ghost post = texts(ws@.subrange(0, i + 1));
        assert(post.drop_last() =~= pre);
        if i > 0 {
            push_str(out, " ");
        }
        push_str(out, ws[i].as_str());
        proof {
            reveal_strlit(" ");
            if i == 0 {
                assert(pre =~= Seq::empty());
                assert(post[0] == ws@[0]@);
            }
            assert(out@ =~= start + join_spaces(post));
        }
        i = i + 1;
    }
    assert(ws@.subrange(0, ws@.len() as int) =~= ws@);
}

fn push_head(b: &mut String, tag: &str, bridge: &str)
    ensures
        final(b)@ == old(b)@ + block_head(tag@, bridge@),
{
    let ghost start = b@;
    push_str(b, "# BEGIN ");
    push_str(b, tag);
    push_str(b, "\n");
    push_str(b, "# Managed by ");
    push_str(b, tag);
    push_str(b, ". Do not edit.\n");
    push_str(b, "# This is for Proxmox GUI visibility only.\n");
    push_str(b, "# NetworkManager manages the actual state via D-Bus.\n\n");
    push_str(b, "auto ");
    push_str(b, bridge);
    push_str(b, "\nallow-ovs ");
    push_str(b, bridge);
    push_str(b, "\niface ");
    push_str(b, bridge);
    push_str(b, " inet manual\n    ovs_type OVSBridge\n");
    assert(b@ =~= start + block_head(tag@, bridge@));
}

fn push_internal(b: &mut String, bridge: &str)
    ensures
        final(b)@ == old(b)@ + internal_stanza(bridge@),
{
    let ghost start = b@;
    push_str(b, "\n");
    push_str(b, "auto ");
    push_str(b, bridge);
    push_str(b, "-if");
    push_str(b, "\niface ");
    push_str(b, bridge);
    push_str(b, "-if");
    push_str(b, " inet manual\n    ovs_type OVSIntPort\n    ovs_bridge ");
    push_str(b, bridge);
    push_str(b, "\n\n");
    assert(b@ =~= start + internal_stanza(bridge@));
}

fn push_uplink(b: &mut String, uplink: Option<&str>, bridge: &str)
    ensures
        final(b)@ == old(b)@ + uplink_stanza(
            match uplink {
                Some(u) => Some(u@),
                None => None,
            },
            bridge@,
        ),
{
    let ghost start = b@;
    match uplink {
        Some(u) => {
            push_str(b, "iface ");
            push_str(b, u);
            push_str(b, " inet manual\n    ovs_bridge ");
            push_str(b, bridge);
            push_str(b, "\n    ovs_type OVSPort\n\n");
            assert(b@ =~= start + uplink_stanza(Some(u@), bridge@));
        },
        None => {
            assert(b@ =~= start + uplink_stanza(None, bridge@));
        },
    }
}

fn push_ports_section(b: &mut String, port_names: &Vec<String>, bridge: &str)
    ensures
        final(b)@ == old(b)@ + ports_section(texts(port_names@), bridge@),
{
    let ghost start = b@;
    if port_names.len() == 0 {
        push_str(b, "# No container OVS ports detected.\n");
    } else {
        let mut k: usize = 0;
        while k < port_names.len()
            invariant
                k <= port_names@.len(),
                b@ == start + port_stanzas(texts(port_names@.subrange(0, k as int)), bridge@),
            decreases port_names@.len() - k,
        {
            let ghost pre = texts(port_names@.subrange(0, k as int));
            let ghost post = texts(port_names@.subrange(0, k + 1));
            assert(post.drop_last() =~= pre);
            let n = port_names[k].as_str();
            push_str(b, "auto ");
            push_str(b, n);
            push_str(b, "\niface ");
            push_str(b, n);
            push_str(b, " inet manual\n    ovs_type OVSIntPort\n    ovs_bridge ");
            push_str(b, bridge);
            push_str(b, "\n\n");
            assert(b@ =~= start + port_stanzas(post, bridge@));
            k = k + 1;
        }
        assert(port_names@.subrange(0, port_names@.len() as int) =~= port_names@);
    }
}

/// The ports on the bridge, uplink first.
fn ports_with_uplink(port_names: &Vec<String>, uplink: Option<&str>) -> (all: Vec<String>)
    ensures
        texts(all@) == all_ports(
            texts(port_names@),
            match uplink {
                Some(u) => Some(u@),
                None => None,
            },
        ),
{
    let ghost up: Option<Seq<char>> = match uplink {
        Some(u) => Some(u@),
        None => None,
    };
    let mut all: Vec<String> = Vec::new();
    match uplink {
        Some(u) => {
            all.push(String::from_str(u));
        },
        None => {},
    }
    let mut i: usize = 0;
    let ghost first = all@;
    while i < port_names.len()
        invariant
            i <= port_names@.len(),
            all@ == first + port_names@.subrange(0, i as int),
        decreases port_names@.len() - i,
    {
        all.push(port_names[i].clone());
        assert(all@ =~= first + port_names@.subrange(0, i + 1));
        i = i + 1;
    }
    assert(port_names@.subrange(0, port_names@.len() as int) =~= port_names@);
    assert(texts(all@) =~= all_ports(texts(port_names@), up));
    all
}

/// Builds the managed block for `bridge`, its optional `uplink` and the container ports.
pub fn render_interfaces_block(tag: &str, port_names: &Vec<String>, bridge: &str, uplink: Option<&str>) -> (r: String)
    ensures
        r@ == interfaces_block(
            tag@,
            texts(port_names@),
            bridge@,
            match uplink {
                Some(u) => Some(u@),
                None => None,
            },
        ),
{
    let mut b = String::new();
    push_head(&mut b, tag, bridge);
    let all = ports_with_uplink(port_names, uplink);
    let ghost before_line = b@;
    if all.len() > 0 {
        push_str(&mut b, "    ovs_ports ");
        push_join(&mut b, &all);
        push_str(&mut b, "\n");
    }
    assert(b@ =~= before_line + ports_line(texts(all@)));
    push_internal(&mut b, bridge);
    push_uplink(&mut b, uplink, bridge);
    push_ports_section(&mut b, port_names, bridge);
    push_str(&mut b, "# END ");
    push_str(&mut b, tag);
    push_str(&mut b, "\n");
    assert(b@ =~= interfaces_block(
        tag@,
        texts(port_names@),
        bridge@,
        match uplink {
            Some(u) => Some(u@),
            None => None,
        },
    ));
    b
}

/// Builds the begin and end markers of the managed block tagged `tag`.
pub fn block_markers(tag: &str) -> (r: (String, String))
    ensures
        r.0@ == begin_marker(tag@),
        r.1@ == end_marker(tag@),
{
    let mut b = String::from_str("# BEGIN ");
    push_str(&mut b, tag);
    push_str(&mut b, "\n");
    let mut e = String::from_str("# END ");
    push_str(&mut e, tag);
    push_str(&mut e, "\n");
    (b, e)
}

/// The new text of an interfaces file: the managed block for the bridge and its ports
/// spliced into the current text `content`.
pub fn update_interfaces_text(
    content: &str,
    tag: &str,
    port_names: &Vec<String>,
    bridge: &str,
    uplink: Option<&str>,
) -> (r: String)
    ensures
        r@ == spliced(
            content@,
            begin_marker(tag@),
            end_marker(tag@),
            interfaces_block(
                tag@,
                texts(port_names@),
                bridge@,
                match uplink {
                    Some(u) => Some(u@),
                    None => None,
                },
            ),
        ),
{
    let (b, e) = block_markers(tag);
    let block = render_interfaces_block(tag, port_names, bridge, uplink);
    replace_block(content, b.as_str(), e.as_str(), block.as_str())
}

/// `s` holds no `#`.
pub open spec fn no_hash(s: Seq<char>) -> bool {
    forall|j: int| 0 <= j < s.len() ==> s[j] != '#'
}

/// Every `#` of `s` has two more characters after it, the second of them not `E` (so no
/// `# END` starts in `s`).
pub open spec fn hash_ok(s: Seq<char>) -> bool {
    forall|j: int| 0 <= j < s.len() && #[trigger] s[j] == '#' ==> j + 2 < s.len() && s[j + 2] != 'E'
}

proof fn lemma_hash_ok_concat(a: Seq<char>, b: Seq<char>)
    requires
        hash_ok(a),
        hash_ok(b),
    ensures
        hash_ok(a + b),
{
    let c = a + b;
    assert forall|j: int| 0 <= j < c.len() && #[trigger] c[j] == '#' implies j + 2 < c.len() && c[j + 2] != 'E' by {
        if j < a.len() {
            assert(c[j] == a[j]);
            assert(c[j + 2] == a[j + 2]);
        } else {
            assert(c[j] == b[j - a.len()]);
            assert(c[j + 2] == b[j + 2 - a.len()]);
        }
    }
}

proof fn lemma_no_hash_concat(a: Seq<char>, b: Seq<char>)
    requires
        no_hash(a),
        no_hash(b),
    ensures
        no_hash(a + b),
{
    let c = a + b;
    assert forall|j: int| 0 <= j < c.len() implies c[j] != '#' by {
        if j < a.len() {
            assert(c[j] == a[j]);
        } else {
            assert(c[j] == b[j - a.len()]);
        }
    }
}

proof fn lemma_join_spaces_no_hash(ws: Seq<Seq<char>>)
    requires
        forall|i: int| 0 <= i < ws.len() ==> no_hash(#[trigger] ws[i]),
    ensures
        no_hash(join_spaces(ws)),
    decreases ws.len(),
{
    reveal_strlit(" ");
    if ws.len() > 1 {
        lemma_join_spaces_no_hash(ws.drop_last());
        assert(ws.last() == ws[ws.len() - 1]);
        lemma_no_hash_concat(join_spaces(ws.drop_last()), " "@);
        lemma_no_hash_concat(join_spaces(ws.drop_last()) + " "@, ws.last());
    } else if ws.len() == 1 {
        assert(ws[0] == ws[0]);
    }
}

proof fn lemma_literals()
    ensures
        hash_ok("# BEGIN "@),
        hash_ok("# Managed by "@),
        hash_ok("# This is for Proxmox GUI visibility only.\n"@),
        hash_ok("# NetworkManager manages the actual state via D-Bus.\n\n"@),
        hash_ok("# No container OVS ports detected.\n"@),
        no_hash("\n"@),
        no_hash(". Do not edit.\n"@),
        no_hash("auto "@),
        no_hash("\nallow-ovs "@),
        no_hash("\niface "@),
        no_hash(" inet manual\n    ovs_type OVSBridge\n"@),
        no_hash("    ovs_ports "@),
        no_hash("-if"@),
        no_hash(" inet manual\n    ovs_type OVSIntPort\n    ovs_bridge "@),
        no_hash("\n\n"@),
        no_hash("iface "@),
        no_hash(" inet manual\n    ovs_bridge "@),
        no_hash("\n    ovs_type OVSPort\n\n"@),
        "# END "@.len() == 6,
        "# END "@[0] == '#',
        "# END "@[2] == 'E',
{
    reveal_strlit("# BEGIN ");
    reveal_strlit("# Managed by ");
    reveal_strlit("# This is for Proxmox GUI visibility only.\n");
    reveal_strlit("# NetworkManager manages the actual state via D-Bus.\n\n");
    reveal_strlit("# No container OVS ports detected.\n");
    reveal_strlit("\n");
    reveal_strlit(". Do not edit.\n");
    reveal_strlit("auto ");
    reveal_strlit("\nallow-ovs ");
    reveal_strlit("\niface ");
    reveal_strlit(" inet manual\n    ovs_type OVSBridge\n");
    reveal_strlit("    ovs_ports ");
    reveal_strlit("-if");
    reveal_strlit(" inet manual\n    ovs_type OVSIntPort\n    ovs_bridge ");
    reveal_strlit("\n\n");
    reveal_strlit("iface ");
    reveal_strlit(" inet manual\n    ovs_bridge ");
    reveal_strlit("\n    ovs_type OVSPort\n\n");
    reveal_strlit("# END ");
}


proof fn lemma_nh(s: Seq<char>)
    requires
        no_hash(s),
    ensures
        hash_ok(s),
{
}

proof fn lemma_port_stanzas_ok(ports: Seq<Seq<char>>, bridge: Seq<char>)
    requires
        forall|i: int| 0 <= i < ports.len() ==> no_hash(#[trigger] ports[i]),
        no_hash(bridge),
    ensures
        hash_ok(port_stanzas(ports, bridge)),
    decreases ports.len(),
{
    lemma_literals();
    if ports.len() > 0 {
        let name = ports.last();
        assert(no_hash(ports[ports.len() - 1]));
        lemma_port_stanzas_ok(ports.drop_last(), bridge);
        lemma_nh("auto "@);
        lemma_nh(name);
        lemma_hash_ok_concat("auto "@, name);
        lemma_nh("\niface "@);
        lemma_hash_ok_concat("auto "@ + name, "\niface "@);
        lemma_nh(name);
        lemma_hash_ok_concat("auto "@ + name + "\niface "@, name);
        lemma_nh(" inet manual\n    ovs_type OVSIntPort\n    ovs_bridge "@);
        lemma_hash_ok_concat("auto "@ + name + "\niface "@ + name, " inet manual\n    ovs_type OVSIntPort\n    ovs_bridge "@);
        lemma_nh(bridge);
        lemma_hash_ok_concat("auto "@ + name + "\niface "@ + name + " inet manual\n    ovs_type OVSIntPort\n    ovs_bridge "@, bridge);
        lemma_nh("\n\n"@);
        lemma_hash_ok_concat("auto "@ + name + "\niface "@ + name + " inet manual\n    ovs_type OVSIntPort\n    ovs_bridge "@ + bridge, "\n\n"@);
        lemma_hash_ok_concat(port_stanzas(ports.drop_last(), bridge), port_stanza(name, bridge));
    } else {
        assert(hash_ok(Seq::<char>::empty()));
    }
}

/// The rendered block without its end marker has no `# END` in it.
#[verifier::spinoff_prover]
#[verifier::rlimit(60)]
proof fn lemma_block_body_ok(tag: Seq<char>, ports: Seq<Seq<char>>, bridge: Seq<char>, uplink: Option<Seq<char>>)
    requires
        no_hash(tag),
        no_hash(bridge),
        uplink matches Some(u) ==> no_hash(u),
        forall|i: int| 0 <= i < ports.len() ==> no_hash(#[trigger] ports[i]),
    ensures
        hash_ok(block_head(tag, bridge) + ports_line(all_ports(ports, uplink)) + internal_stanza(bridge)
            + uplink_stanza(uplink, bridge) + ports_section(ports, bridge)),
{
    lemma_literals();
    assert(hash_ok(Seq::<char>::empty()));
    lemma_nh(tag);
    lemma_hash_ok_concat("# BEGIN "@, tag);
    lemma_nh("\n"@);
    lemma_hash_ok_concat("# BEGIN "@ + tag, "\n"@);
    lemma_hash_ok_concat("# BEGIN "@ + tag + "\n"@, "# Managed by "@);
    lemma_nh(tag);
    lemma_hash_ok_concat("# BEGIN "@ + tag + "\n"@ + "# Managed by "@, tag);
    lemma_nh(". Do not edit.\n"@);
    lemma_hash_ok_concat("# BEGIN "@ + tag + "\n"@ + "# Managed by "@ + tag, ". Do not edit.\n"@);
    lemma_hash_ok_concat("# BEGIN "@ + tag + "\n"@ + "# Managed by "@ + tag + ". Do not edit.\n"@, "# This is for Proxmox GUI visibility only.\n"@);
    lemma_hash_ok_concat("# BEGIN "@ + tag + "\n"@ + "# Managed by "@ + tag + ". Do not edit.\n"@ + "# This is for Proxmox GUI visibility only.\n"@, "# NetworkManager manages the actual state via D-Bus.\n\n"@);
    lemma_nh("auto "@);
    lemma_hash_ok_concat("# BEGIN "@ + tag + "\n"@ + "# Managed by "@ + tag + ". Do not edit.\n"@ + "# This is for Proxmox GUI visibility only.\n"@ + "# NetworkManager manages the actual state via D-Bus.\n\n"@, "auto "@);
    lemma_nh(bridge);
    lemma_hash_ok_concat("# BEGIN "@ + tag + "\n"@ + "# Managed by "@ + tag + ". Do not edit.\n"@ + "# This is for Proxmox GUI visibility only.\n"@ + "# NetworkManager manages the actual state via D-Bus.\n\n"@ + "auto "@, bridge);
    lemma_nh("\nallow-ovs "@);
    lemma_hash_ok_concat("# BEGIN "@ + tag + "\n"@ + "# Managed by "@ + tag + ". Do not edit.\n"@ + "# This is for Proxmox GUI visibility only.\n"@ + "# NetworkManager manages the actual state via D-Bus.\n\n"@ + "auto "@ + bridge, "\nallow-ovs "@);
    lemma_nh(bridge);
    lemma_hash_ok_concat("# BEGIN "@ + tag + "\n"@ + "# Managed by "@ + tag + ". Do not edit.\n"@ + "# This is for Proxmox GUI visibility only.\n"@ + "# NetworkManager manages the actual state via D-Bus.\n\n"@ + "auto "@ + bridge + "\nallow-ovs "@, bridge);
    lemma_nh("\niface "@);
    lemma_hash_ok_concat("# BEGIN "@ + tag + "\n"@ + "# Managed by "@ + tag + ". Do not edit.\n"@ + "# This is for Proxmox GUI visibility only.\n"@ + "# NetworkManager manages the actual state via D-Bus.\n\n"@ + "auto "@ + bridge + "\nallow-ovs "@ + bridge, "\niface "@);
    lemma_nh(bridge);
    lemma_hash_ok_concat("# BEGIN "@ + tag + "\n"@ + "# Managed by "@ + tag + ". Do not edit.\n"@ + "# This is for Proxmox GUI visibility only.\n"@ + "# NetworkManager manages the actual state via D-Bus.\n\n"@ + "auto "@ + bridge + "\nallow-ovs "@ + bridge + "\niface "@, bridge);
    lemma_nh(" inet manual\n    ovs_type OVSBridge\n"@);
    lemma_hash_ok_concat("# BEGIN "@ + tag + "\n"@ + "# Managed by "@ + tag + ". Do not edit.\n"@ + "# This is for Proxmox GUI visibility only.\n"@ + "# NetworkManager manages the actual state via D-Bus.\n\n"@ + "auto "@ + bridge + "\nallow-ovs "@ + bridge + "\niface "@ + bridge, " inet manual\n    ovs_type OVSBridge\n"@);
    let all = all_ports(ports, uplink);
    assert forall|i: int| 0 <= i < all.len() implies no_hash(#[trigger] all[i]) by {
        match uplink {
            Some(x) => {
                if i > 0 {
                    assert(all[i] == ports[i - 1]);
                }
            },
            None => {},
        }
    }
    if all.len() > 0 {
        lemma_join_spaces_no_hash(all);
        lemma_nh("    ovs_ports "@);
        lemma_nh(join_spaces(all));
        lemma_nh("\n"@);
        lemma_hash_ok_concat("    ovs_ports "@, join_spaces(all));
        lemma_hash_ok_concat("    ovs_ports "@ + join_spaces(all), "\n"@);
    }
    lemma_nh("\n"@);
    lemma_nh("auto "@);
    lemma_hash_ok_concat("\n"@, "auto "@);
    lemma_nh(bridge);
    lemma_hash_ok_concat("\n"@ + "auto "@, bridge);
    lemma_nh("-if"@);
    lemma_hash_ok_concat("\n"@ + "auto "@ + bridge, "-if"@);
    lemma_nh("\niface "@);
    lemma_hash_ok_concat("\n"@ + "auto "@ + bridge + "-if"@, "\niface "@);
    lemma_nh(bridge);
    lemma_hash_ok_concat("\n"@ + "auto "@ + bridge + "-if"@ + "\niface "@, bridge);
    lemma_nh("-if"@);
    lemma_hash_ok_concat("\n"@ + "auto "@ + bridge + "-if"@ + "\niface "@ + bridge, "-if"@);
    lemma_nh(" inet manual\n    ovs_type OVSIntPort\n    ovs_bridge "@);
    lemma_hash_ok_concat("\n"@ + "auto "@ + bridge + "-if"@ + "\niface "@ + bridge + "-if"@, " inet manual\n    ovs_type OVSIntPort\n    ovs_bridge "@);
    lemma_nh(bridge);
    lemma_hash_ok_concat("\n"@ + "auto "@ + bridge + "-if"@ + "\niface "@ + bridge + "-if"@ + " inet manual\n    ovs_type OVSIntPort\n    ovs_bridge "@, bridge);
    lemma_nh("\n\n"@);
    lemma_hash_ok_concat("\n"@ + "auto "@ + bridge + "-if"@ + "\niface "@ + bridge + "-if"@ + " inet manual\n    ovs_type OVSIntPort\n    ovs_bridge "@ + bridge, "\n\n"@);
    match uplink {
        Some(u) => {
            lemma_nh("iface "@);
            lemma_nh(u);
            lemma_hash_ok_concat("iface "@, u);
            lemma_nh(" inet manual\n    ovs_bridge "@);
            lemma_hash_ok_concat("iface "@ + u, " inet manual\n    ovs_bridge "@);
            lemma_nh(bridge);
            lemma_hash_ok_concat("iface "@ + u + " inet manual\n    ovs_bridge "@, bridge);
            lemma_nh("\n    ovs_type OVSPort\n\n"@);
            lemma_hash_ok_concat("iface "@ + u + " inet manual\n    ovs_bridge "@ + bridge, "\n    ovs_type OVSPort\n\n"@);
        },
        None => {},
    }
    if ports.len() > 0 {
        lemma_port_stanzas_ok(ports, bridge);
    }
    let a = block_head(tag, bridge);
    let b = ports_line(all);
    let c = internal_stanza(bridge);
    let d = uplink_stanza(uplink, bridge);
    let e = ports_section(ports, bridge);
    lemma_hash_ok_concat(a, b);
    lemma_hash_ok_concat(a + b, c);
    lemma_hash_ok_concat(a + b + c, d);
    lemma_hash_ok_concat(a + b + c + d, e);
}

/// When the tag, the bridge, the uplink and the port names hold no `#`, the rendered block
/// holds its end marker only at its end.
#[verifier::spinoff_prover]
#[verifier::rlimit(60)]
pub proof fn law_names_without_hash_keep_the_end_marker_last(tag: Seq<char>, ports: Seq<Seq<char>>, bridge: Seq<char>, uplink: Option<Seq<char>>)
    requires
        no_hash(tag),
        no_hash(bridge),
        uplink matches Some(u) ==> no_hash(u),
        forall|i: int| 0 <= i < ports.len() ==> no_hash(#[trigger] ports[i]),
    ensures
        occurs_at(interfaces_block(tag, ports, bridge, uplink), begin_marker(tag), 0),
        find(interfaces_block(tag, ports, bridge, uplink), end_marker(tag)) == Some(
            interfaces_block(tag, ports, bridge, uplink).len() - end_marker(tag).len(),
        ),
{
    lemma_literals();
    lemma_block_body_ok(tag, ports, bridge, uplink);
    let body = block_head(tag, bridge) + ports_line(all_ports(ports, uplink)) + internal_stanza(bridge)
        + uplink_stanza(uplink, bridge) + ports_section(ports, bridge);
    let blk = interfaces_block(tag, ports, bridge, uplink);
    let e = end_marker(tag);
    let b = begin_marker(tag);
    assert(blk == body + e);
    assert(blk.subrange(0, b.len() as int) =~= b);
    let n = body.len() as int;
    assert(blk.subrange(n, blk.len() as int) =~= e);
    assert(e[0] == '#');
    assert(e[2] == 'E');
    assert forall|j: int| 0 <= j < n implies !#[trigger] occurs_at(blk, e, j) by {
        if occurs_at(blk, e, j) {
            assert(blk.subrange(j, j + e.len())[0] == blk[j]);
            assert(blk.subrange(j, j + e.len())[2] == blk[j + 2]);
            assert(blk[j] == body[j]);
            assert(body[j] == '#');
            assert(blk[j + 2] == body[j + 2]);
        }
    }
    assert(blk.len() == n + e.len());
    assert(occurs_at(blk, e, n));
    lemma_find_from_first(blk, e, 0);
    match find(blk, e) {
        Some(k) => {
            if k < n {
                assert(!occurs_at(blk, e, k));
            } else if k > n {
                assert(!occurs_at(blk, e, n));
            }
        },
        None => {
            assert(!occurs_at(blk, e, n));
        },
    }
}

/// The rendered block begins with its begin marker.
proof fn lemma_block_begins_with_marker(tag: Seq<char>, ports: Seq<Seq<char>>, bridge: Seq<char>, uplink: Option<Seq<char>>)
    ensures
        occurs_at(interfaces_block(tag, ports, bridge, uplink), begin_marker(tag), 0),
{
    let blk = interfaces_block(tag, ports, bridge, uplink);
    let b = begin_marker(tag);
    assert(blk.subrange(0, b.len() as int) =~= b);
}

/// Rendering and writing the same managed block a second time leaves an interfaces file's
/// text as the first write left it. This holds exactly where the rendered block holds its
/// end marker only at its end (no name spells the end marker; see
/// `law_names_without_hash_keep_the_end_marker_last`), and the text before the first write
/// either holds the begin marker with an end marker after it, or holds no begin marker (not
/// even one that the line break put in before an appended block would complete) while the
/// tag holds no line break.
pub proof fn law_interfaces_rewrite_is_stable(
    content: Seq<char>,
    tag: Seq<char>,
    ports: Seq<Seq<char>>,
    bridge: Seq<char>,
    uplink: Option<Seq<char>>,
)
    requires
        find(interfaces_block(tag, ports, bridge, uplink), end_marker(tag)) == Some(
            interfaces_block(tag, ports, bridge, uplink).len() - end_marker(tag).len(),
        ),
        match find(content, begin_marker(tag)) {
            Some(st) => find(content.subrange(st, content.len() as int), end_marker(tag)) is Some,
            None => find(lead(content), begin_marker(tag)) is None && forall|k: int| 0 <= k < tag.len() ==> tag[k] != '\n',
        },
    ensures
        ({
            let blk = interfaces_block(tag, ports, bridge, uplink);
            let once = spliced(content, begin_marker(tag), end_marker(tag), blk);
            spliced(once, begin_marker(tag), end_marker(tag), blk) == once
        }),
{
    lemma_block_begins_with_marker(tag, ports, bridge, uplink);
    let b = begin_marker(tag);
    if find(content, b) is None {
        reveal_strlit("# BEGIN ");
        reveal_strlit("\n");
        assert forall|k: int| 0 <= k < b.len() - 1 implies b[k] != '\n' by {
            if k >= 8 {
                assert(b[k] == tag[k - 8]);
            }
        }
    }
    law_block_rewrite_is_stable(content, b, end_marker(tag), interfaces_block(tag, ports, bridge, uplink));
}

} // verus!
