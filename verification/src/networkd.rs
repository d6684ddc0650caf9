//! systemd-networkd as the agent reads it: link records, bridge state, the object paths of
//! links, and the link lists read out of `networkctl` output.
use vstd::prelude::*;
use vstd::string::*;
use crate::text::{owned, push_str, push_decimal, dec, texts, same_text};
use crate::lines::{lines, words, text_lines, split_words, all_digits, digits_value};
use crate::json::{Json, json_get, json_as_str, opt_as_str};
use crate::error::Error;
use crate::interfaces::{find, find_from, find_chars};
use crate::lines::{starts, starts_with_text};
use crate::text::chars_of;

verus! {

/// A link as the networkd client lists it.
pub struct LinkInfo {
    pub index: u32,
    pub name: String,
    pub operational_state: String,
}

/// A bridge as the networkd client reports it.
pub struct BridgeState {
    pub exists: bool,
    pub operational: bool,
    pub ports: Vec<String>,
    pub addresses: Vec<String>,
}

/// The networkd client. Its answers are fixed: the loopback link, every bridge present and
/// operational with the address `192.168.1.1` and no ports, and an `ok` status.
pub struct NetworkdClient;

impl NetworkdClient {
    /// The client.
    pub fn new() -> (r: NetworkdClient) {
        NetworkdClient
    }

    /// The links: the loopback link, index 1, with carrier.
    pub fn list_links(&self) -> (r: Result<Vec<LinkInfo>, Error>)
        ensures
            r matches Ok(v) && v@.len() == 1 && v@[0].index == 1 && v@[0].name@ == "lo"@
                && v@[0].operational_state@ == "carrier"@,
    {
        let mut v: Vec<LinkInfo> = Vec::new();
        v.push(LinkInfo { index: 1, name: owned("lo"), operational_state: owned("carrier") });
        Ok(v)
    }

    /// Whether the bridge exists (always).
    pub fn bridge_exists(&self, bridge_name: &str) -> (r: Result<bool, Error>)
        ensures
            r matches Ok(b) && b,
    {
        Ok(true)
    }

    /// The bridge's state: present, operational, no ports, address `192.168.1.1`.
    pub fn get_bridge_state(&self, bridge_name: &str) -> (r: Result<BridgeState, Error>)
        ensures
            r matches Ok(s) && s.exists && s.operational && s.ports@.len() == 0 && s.addresses@.len() == 1
                && s.addresses@[0]@ == "192.168.1.1"@,
    {
        let mut addresses: Vec<String> = Vec::new();
        addresses.push(owned("192.168.1.1"));
        Ok(BridgeState { exists: true, operational: true, ports: Vec::new(), addresses })
    }

    /// Reloads networkd (nothing to do).
    pub fn reload_networkd(&self) -> (r: Result<(), Error>)
        ensures
            r is Ok,
    {
        Ok(())
    }

    /// The network state: `status` is `ok` (value as JSON text).
    pub fn get_network_state(&self) -> (r: Result<Vec<(String, String)>, Error>)
        ensures
            r matches Ok(m) && m@.len() == 1 && m@[0].0@ == "status"@ && m@[0].1@ == "\"ok\""@,
    {
        let mut m: Vec<(String, String)> = Vec::new();
        m.push((owned("status"), owned("\"ok\"")));
        Ok(m)
    }
}

/// Whether the links hold one named `name`.
pub fn link_listed(links: &Vec<LinkInfo>, name: &str) -> (r: bool)
    ensures
        r == exists|i: int| 0 <= i < links@.len() && (#[trigger] links@[i]).name@ == name@,
{
    let mut i: usize = 0;
    while i < links.len()
        invariant
            i <= links@.len(),
            forall|j: int| 0 <= j < i ==> (#[trigger] links@[j]).name@ != name@,
        decreases links@.len() - i,
    {
        if same_text(links[i].name.as_str(), name) {
            return true;
        }
        i = i + 1;
    }
    false
}

/// Whether a link's name belongs with bridge `bridge`: it contains the bridge's name or
/// starts with `veth`.
pub open spec fn bridge_member_name(name: Seq<char>, bridge: Seq<char>) -> bool {
    find(name, bridge) is Some || starts(name, "veth"@)
}

/// The names of the links that belong with bridge `bridge`, in order.
pub open spec fn bridge_member_names(links: Seq<LinkInfo>, bridge: Seq<char>) -> Seq<Seq<char>>
    decreases links.len(),
{
    if links.len() == 0 {
        Seq::empty()
    } else {
        let rest = bridge_member_names(links.drop_last(), bridge);
        if bridge_member_name(links.last().name@, bridge) {
            rest.push(links.last().name@)
        } else {
            rest
        }
    }
}

/// The names of the links that belong with bridge `bridge`.
pub fn bridge_interfaces(links: &Vec<LinkInfo>, bridge: &str) -> (r: Vec<String>)
    ensures
        texts(r@) == bridge_member_names(links@, bridge@),
{
    let bs = chars_of(bridge);
    let mut r: Vec<String> = Vec::new();
    let mut i: usize = 0;
    while i < links.len()
        invariant
            i <= links@.len(),
            bs@ == bridge@,
            texts(r@) == bridge_member_names(links@.take(i as int), bridge@),
        decreases links@.len() - i,
    {
        let ns = chars_of(links[i].name.as_str());
        let member = if bs.len() <= ns.len() {
            find_chars(&ns, &bs, 0).is_some()
        } else {
            false
        } || starts_with_text(links[i].name.as_str(), "veth");
        proof {
            assert(links@.take(i + 1).drop_last() =~= links@.take(i as int));
            assert(links@.take(i + 1).last() == links@[i as int]);
            if bs@.len() > ns@.len() {
                assert(find_from(ns@, bs@, 0) is None);
            }
        }
        if member {
            r.push(owned(links[i].name.as_str()));
            proof {
                assert(texts(r@) =~= texts(r@.drop_last()).push(r@.last()@));
            }
        }
        i = i + 1;
    }
    assert(links@.take(links@.len() as int) =~= links@);
    r
}

/// Whether networkd lists a link named `interface`: it lists the loopback link alone.
pub fn network_interface_exists(interface: &str) -> (r: bool)
    ensures
        r == (interface@ == "lo"@),
{
    let client = NetworkdClient::new();
    match client.list_links() {
        Ok(links) => link_listed(&links, interface),
        Err(_) => false,
    }
}

/// Whether networkd has the bridge `bridge_name` (it reports every bridge present).
pub fn bridge_present(bridge_name: &str) -> (r: bool)
    ensures
        r,
{
    let client = NetworkdClient::new();
    match client.bridge_exists(bridge_name) {
        Ok(b) => b,
        Err(_) => false,
    }
}

/// The ports of bridge `bridge_name` as networkd reports them (none).
pub fn get_bridge_ports(bridge_name: &str) -> (r: Result<Vec<String>, Error>)
    ensures
        r matches Ok(p) && p@.len() == 0,
{
    let client = NetworkdClient::new();
    let state = client.get_bridge_state(bridge_name)?;
    Ok(state.ports)
}

/// The links networkd lists that belong with bridge `bridge_name`.
pub fn get_bridge_interfaces(bridge_name: &str) -> (r: Result<Vec<String>, Error>)
    ensures
        r matches Ok(v) && texts(v@) == if bridge_member_name("lo"@, bridge_name@) {
            seq!["lo"@]
        } else {
            Seq::<Seq<char>>::empty()
        },
{
    let client = NetworkdClient::new();
    let links = client.list_links()?;
    let r = bridge_interfaces(&links, bridge_name);
    proof {
        assert(links@.drop_last() =~= Seq::<LinkInfo>::empty());
        assert(bridge_member_names(links@.drop_last(), bridge_name@) =~= Seq::<Seq<char>>::empty());
    }
    Ok(r)
}

/// The state of all links, as the systemd D-Bus client reads it.
pub struct SystemdNetworkState {
    pub links: Vec<NetworkLink>,
}

/// One link of `ListLinks`.
pub struct NetworkLink {
    pub index: u32,
    pub name: String,
    pub operational_state: String,
}

/// A link's properties, as the systemd D-Bus client reads them.
pub struct SystemdLinkInfo {
    pub index: u32,
    pub name: String,
    pub operational_state: String,
    pub admin_state: String,
    pub address_state: String,
}

/// The D-Bus object path of link `index`.
pub open spec fn link_path(index: u32) -> Seq<char> {
    "/org/freedesktop/network1/link/_"@ + dec(index as nat)
}

/// Builds the D-Bus object path of link `index`.
pub fn link_object_path(index: u32) -> (r: String)
    ensures
        r@ == link_path(index),
{
    let mut p = owned("/org/freedesktop/network1/link/_");
    push_decimal(&mut p, index as u64);
    p
}

/// The network state from the `(index, name, _, operational state)` tuples of `ListLinks`.
pub fn network_state_from(links: Vec<(u32, String, String, String)>) -> (r: SystemdNetworkState)
    ensures
        r.links@.len() == links@.len(),
        forall|i: int|
            0 <= i < links@.len() ==> (#[trigger] r.links@[i]).index == links@[i].0 && r.links@[i].name@
                == links@[i].1@ && r.links@[i].operational_state@ == links@[i].3@,
{
    let mut out: Vec<NetworkLink> = Vec::new();
    let mut i: usize = 0;
    while i < links.len()
        invariant
            i <= links@.len(),
            out@.len() == i,
            forall|k: int|
                0 <= k < i ==> (#[trigger] out@[k]).index == links@[k].0 && out@[k].name@ == links@[k].1@
                    && out@[k].operational_state@ == links@[k].3@,
        decreases links@.len() - i,
    {
        out.push(NetworkLink {
            index: links[i].0,
            name: links[i].1.clone(),
            operational_state: links[i].3.clone(),
        });
        i = i + 1;
    }
    SystemdNetworkState { links: out }
}

/// The unit names of `networkctl list --no-legend` output: the second word of each line
/// that has one.
pub open spec fn unit_names(ls: Seq<Seq<char>>) -> Seq<Seq<char>>
    decreases ls.len(),
{
    if ls.len() == 0 {
        Seq::empty()
    } else if words(ls.last()).len() >= 2 {
        unit_names(ls.drop_last()).push(words(ls.last())[1])
    } else {
        unit_names(ls.drop_last())
    }
}

/// Reads the unit names out of `networkctl list --no-pager --no-legend` output.
pub fn list_network_units(output: &str) -> (r: Vec<String>)
    ensures
        texts(r@) == unit_names(lines(output@)),
{
    let ls = text_lines(output);
    let mut out: Vec<String> = Vec::new();
    let mut i: usize = 0;
    while i < ls.len()
        invariant
            i <= ls@.len(),
            texts(ls@) == lines(output@),
            texts(out@) == unit_names(lines(output@).subrange(0, i as int)),
        decreases ls@.len() - i,
    {
        let ghost pre = lines(output@).subrange(0, i as int);
        let ghost post = lines(output@).subrange(0, i + 1);
        assert(post.drop_last() =~= pre);
        assert(post.last() == ls@[i as int]@);
        let ws = split_words(ls[i].as_str());
        if ws.len() >= 2 {
            assert(texts(ws@)[1] == ws@[1]@);
            let ghost before = out@;
            out.push(ws[1].clone());
            assert(texts(out@) =~= texts(before).push(ws@[1]@));
        }
        i = i + 1;
    }
    assert(lines(output@).subrange(0, ls@.len() as int) =~= lines(output@));
    out
}

/// A link of `networkctl list --json=short`.
pub struct LinkSummary {
    pub index: u32,
    pub name: String,
    pub operational_state: String,
}

/// A link's properties read over D-Bus.
pub struct LinkDetail {
    pub index: u32,
    pub name: String,
    pub operational_state: String,
    pub administrative_state: String,
    pub address_state: String,
}

/// The unsigned integer a JSON number's text denotes, when it is a plain run of digits
/// that fits in 64 bits.
pub open spec fn number_u64(j: Option<Json>) -> Option<u64> {
    match j {
        Some(Json::Number(t)) => if t@.len() > 0 && all_digits(t@) && digits_value(t@) <= u64::MAX {
            Some(digits_value(t@) as u64)
        } else {
            None
        },
        _ => None,
    }
}

fn number_u64_exec(j: Option<&Json>) -> (r: Option<u64>)
    ensures
        r == number_u64(
            match j {
                Some(x) => Some(*x),
                None => None,
            },
        ),
{
    match j {
        Some(Json::Number(t)) => {
            let cs = crate::text::chars_of(t.as_str());
            if cs.len() == 0 {
                return None;
            }
            let ghost target = number_u64(
                match j {
                    Some(x) => Some(*x),
                    None => None,
                },
            );
            assert(target == (if t@.len() > 0 && all_digits(t@) && digits_value(t@) <= u64::MAX {
                Some(digits_value(t@) as u64)
            } else {
                None
            }));
            let mut v: u64 = 0;
            let mut i: usize = 0;
            while i < cs.len()
                invariant
                    target == number_u64(
                        match j {
                            Some(x) => Some(*x),
                            None => None,
                        },
                    ),
                    target == (if t@.len() > 0 && all_digits(t@) && digits_value(t@) <= u64::MAX {
                        Some(digits_value(t@) as u64)
                    } else {
                        None
                    }),
                    cs@ == t@,
                    i <= cs@.len(),
                    all_digits(cs@.subrange(0, i as int)),
                    v == digits_value(cs@.subrange(0, i as int)),
                decreases cs@.len() - i,
            {
                let c = cs[i];
                if c < '0' || c > '9' {
                    assert(t@[i as int] == c);
                    return None;
                }
                assert(cs@.subrange(0, i + 1).drop_last() =~= cs@.subrange(0, i as int));
                let d: u64 = ((c as u32) - 48) as u64;
                if v > (0xFFFF_FFFF_FFFF_FFFFu64 - d) / 10 {
                    proof {
                        assert(digits_value(cs@.subrange(0, i + 1)) > u64::MAX) by (nonlinear_arith)
                            requires
                                v > (0xFFFF_FFFF_FFFF_FFFFu64 - d) / 10,
                                digits_value(cs@.subrange(0, i + 1)) == v * 10 + d,
                                d <= 9,
                        ;
                        if all_digits(t@) {
                            lemma_digits_grow(t@, i + 1, t@.len() as int);
                            assert(t@.subrange(0, i + 1) =~= cs@.subrange(0, i + 1));
                            assert(t@.subrange(0, t@.len() as int) =~= t@);
                        }
                    }
                    return None;
                }
                v = v * 10 + d;
                assert(all_digits(cs@.subrange(0, i + 1)));
                i = i + 1;
            }
            assert(cs@.subrange(0, cs@.len() as int) =~= t@);
            Some(v)
        },
        _ => None,
    }
}

proof fn lemma_digits_grow(s: Seq<char>, a: int, b: int)
    requires
        0 <= a <= b <= s.len(),
        all_digits(s),
    ensures
        digits_value(s.subrange(0, a)) <= digits_value(s.subrange(0, b)),
    decreases b - a,
{
    if a < b {
        lemma_digits_grow(s, a, b - 1);
        assert(s.subrange(0, b).drop_last() =~= s.subrange(0, b - 1));
    }
}

/// A link of `networkctl list --json=short`: its index (cut to 32 bits; 0 when missing),
/// name (empty when missing) and operational state (`unknown` when missing).
pub open spec fn summary_of(it: Json) -> (u32, Seq<char>, Seq<char>) {
    (
        match number_u64(json_get(it, "ifindex"@)) {
            Some(n) => (n % 0x1_0000_0000) as u32,
            None => 0,
        },
        match json_as_str(json_get(it, "name"@)) {
            Some(n) => n,
            None => Seq::empty(),
        },
        match json_as_str(json_get(it, "operational-state"@)) {
            Some(s) => s,
            None => "unknown"@,
        },
    )
}

/// The named links among `items`, in order.
pub open spec fn summaries_of(items: Seq<Json>) -> Seq<(u32, Seq<char>, Seq<char>)>
    decreases items.len(),
{
    if items.len() == 0 {
        Seq::empty()
    } else if summary_of(items.last()).1.len() > 0 {
        summaries_of(items.drop_last()).push(summary_of(items.last()))
    } else {
        summaries_of(items.drop_last())
    }
}

/// The views of link summaries.
pub open spec fn summary_views(v: Seq<LinkSummary>) -> Seq<(u32, Seq<char>, Seq<char>)> {
    Seq::new(v.len(), |i: int| (v[i].index, v[i].name@, v[i].operational_state@))
}

/// The links of the parsed output of `networkctl list --json=short` (none when it is not an
/// array); links without a name are left out.
pub fn links_from_json(v: &Json) -> (r: Vec<LinkSummary>)
    ensures
        summary_views(r@) == match *v {
            Json::Array(items) => summaries_of(items@),
            _ => Seq::empty(),
        },
{
    let mut res: Vec<LinkSummary> = Vec::new();
    match v {
        Json::Array(items) => {
            let mut i: usize = 0;
            while i < items.len()
                invariant
                    i <= items@.len(),
                    summary_views(res@) == summaries_of(items@.subrange(0, i as int)),
                decreases items@.len() - i,
            {
                assert(items@.subrange(0, i + 1).drop_last() =~= items@.subrange(0, i as int));
                assert(items@.subrange(0, i + 1).last() == items@[i as int]);
                let it = &items[i];
                let idx: u32 = match number_u64_exec(it.get("ifindex")) {
                    Some(n) => (n % 0x1_0000_0000) as u32,
                    None => 0,
                };
                let name = match opt_as_str(it.get("name")) {
                    Some(n) => owned(n),
                    None => String::new(),
                };
                let op = match opt_as_str(it.get("operational-state")) {
                    Some(s) => owned(s),
                    None => owned("unknown"),
                };
                if !name.as_str().is_empty() {
                    let ghost before = res@;
                    res.push(LinkSummary { index: idx, name, operational_state: op });
                    assert(summary_views(res@) =~= summary_views(before).push(summary_of(items@[i as int])));
                } else {
                    assert(summary_of(items@[i as int]).1.len() == 0);
                }
                i = i + 1;
            }
            assert(items@.subrange(0, items@.len() as int) =~= items@);
        },
        _ => {
            assert(summary_views(res@) =~= Seq::<(u32, Seq<char>, Seq<char>)>::empty());
        },
    }
    res
}

/// The index of the first link named `ifname`, or the refusal of a link networkd does not
/// manage.
pub fn ifindex_by_name(links: &Vec<LinkSummary>, ifname: &str) -> (r: Result<u32, Error>)
    ensures
        match r {
            Ok(i) => exists|k: int|
                0 <= k < links@.len() && links@[k].name@ == ifname@ && links@[k].index == i && forall|j: int|
                    0 <= j < k ==> #[trigger] links@[j].name@ != ifname@,
            Err(e) => (forall|j: int| 0 <= j < links@.len() ==> #[trigger] links@[j].name@ != ifname@) && (e matches Error::Network(m)
                && m@ == "Interface '"@ + ifname@ + "' not managed by networkd"@),
        },
{
    let mut i: usize = 0;
    while i < links.len()
        invariant
            i <= links@.len(),
            forall|j: int| 0 <= j < i ==> #[trigger] links@[j].name@ != ifname@,
        decreases links@.len() - i,
    {
        if same_text(links[i].name.as_str(), ifname) {
            return Ok(links[i].index);
        }
        i = i + 1;
    }
    let mut m = owned("Interface '");
    push_str(&mut m, ifname);
    push_str(&mut m, "' not managed by networkd");
    Err(Error::Network(m))
}

} // verus!
