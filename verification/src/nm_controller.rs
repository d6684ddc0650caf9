//! An OVS bridge set up the way NetworkManager documents it, with controller relations:
//! bridge, port and internal interface, and optionally an uplink port with its ethernet.
use vstd::prelude::*;
use crate::text::{owned, texts};
use crate::lines::{lines, split_on, text_lines, split_char};
use crate::interfaces::{find, find_chars};
use crate::nm_bridge::{NmAction, NmStep, steps, push_all};

verus! {

/// `nmcli` arguments that add an OVS bridge.
pub open spec fn bridge_argv(bridge: Seq<char>) -> Seq<Seq<char>> {
    seq!["conn"@, "add"@, "type"@, "ovs-bridge"@, "conn.interface"@, bridge]
}

/// `nmcli` arguments that add an OVS port under `controller`.
pub open spec fn port_argv(port: Seq<char>, controller: Seq<char>) -> Seq<Seq<char>> {
    seq!["conn"@, "add"@, "type"@, "ovs-port"@, "conn.interface"@, port, "controller"@, controller]
}

/// `nmcli` arguments that add an OVS interface under `controller`: a static address (and
/// gateway, when given) or no IPv4 at all.
pub open spec fn interface_argv(ifname: Seq<char>, controller: Seq<char>, ip: Option<Seq<char>>, gw: Option<Seq<char>>) -> Seq<Seq<char>> {
    seq!["conn"@, "add"@, "type"@, "ovs-interface"@, "port-type"@, "ovs-port"@, "conn.interface"@, ifname, "controller"@, controller]
        + match ip {
        Some(a) => seq!["ipv4.method"@, "manual"@, "ipv4.address"@, a] + match gw {
            Some(g) => seq!["ipv4.gateway"@, g],
            None => Seq::empty(),
        },
        None => seq!["ipv4.method"@, "disabled"@],
    }
}

/// `nmcli` arguments that add an ethernet connection under `controller`.
pub open spec fn ethernet_argv(ifname: Seq<char>, controller: Seq<char>) -> Seq<Seq<char>> {
    seq!["conn"@, "add"@, "type"@, "ethernet"@, "conn.interface"@, ifname, "controller"@, controller]
}

/// The view of an optional string slice.
pub open spec fn opt_str(o: Option<&str>) -> Option<Seq<char>> {
    match o {
        Some(s) => Some(s@),
        None => None,
    }
}

/// Adds an OVS bridge.
pub fn create_ovs_bridge_controlled(bridge_name: &str) -> (r: Vec<String>)
    ensures
        texts(r@) == bridge_argv(bridge_name@),
{
    let parts: [&str; 6] = ["conn", "add", "type", "ovs-bridge", "conn.interface", bridge_name];
    let mut r: Vec<String> = Vec::new();
    push_all(&mut r, &parts);
    assert(texts(r@) =~= bridge_argv(bridge_name@));
    r
}

/// Adds an OVS port under `controller`.
pub fn create_ovs_port_controlled(port_name: &str, controller: &str) -> (r: Vec<String>)
    ensures
        texts(r@) == port_argv(port_name@, controller@),
{
    let parts: [&str; 8] = ["conn", "add", "type", "ovs-port", "conn.interface", port_name, "controller", controller];
    let mut r: Vec<String> = Vec::new();
    push_all(&mut r, &parts);
    assert(texts(r@) =~= port_argv(port_name@, controller@));
    r
}

/// Adds an OVS interface under `controller`, with its IPv4 configuration.
pub fn create_ovs_interface_controlled(if_name: &str, controller: &str, ip_addr: Option<&str>, gateway: Option<&str>) -> (r: Vec<String>)
    ensures
        texts(r@) == interface_argv(if_name@, controller@, opt_str(ip_addr), opt_str(gateway)),
{
    let parts: [&str; 10] = [
        "conn",
        "add",
        "type",
        "ovs-interface",
        "port-type",
        "ovs-port",
        "conn.interface",
        if_name,
        "controller",
        controller,
    ];
    let mut r: Vec<String> = Vec::new();
    push_all(&mut r, &parts);
    let ghost head = texts(r@);
    match ip_addr {
        Some(ip) => {
            let more: [&str; 4] = ["ipv4.method", "manual", "ipv4.address", ip];
            push_all(&mut r, &more);
            let ghost mid = texts(r@);
            match gateway {
                Some(gw) => {
                    let g: [&str; 2] = ["ipv4.gateway", gw];
                    push_all(&mut r, &g);
                    assert(texts(r@) =~= mid + seq!["ipv4.gateway"@, gw@]);
                },
                None => {
                    assert(texts(r@) =~= mid + Seq::<Seq<char>>::empty());
                },
            }
            assert(mid =~= head + seq!["ipv4.method"@, "manual"@, "ipv4.address"@, ip@]);
        },
        None => {
            let more: [&str; 2] = ["ipv4.method", "disabled"];
            push_all(&mut r, &more);
        },
    }
    assert(texts(r@) =~= interface_argv(if_name@, controller@, opt_str(ip_addr), opt_str(gateway)));
    r
}

/// Adds an ethernet connection under `controller`.
pub fn add_ethernet_to_bridge(ifname: &str, controller: &str) -> (r: Vec<String>)
    ensures
        texts(r@) == ethernet_argv(ifname@, controller@),
{
    let parts: [&str; 8] = ["conn", "add", "type", "ethernet", "conn.interface", ifname, "controller", controller];
    let mut r: Vec<String> = Vec::new();
    push_all(&mut r, &parts);
    assert(texts(r@) =~= ethernet_argv(ifname@, controller@));
    r
}

/// The complete setup: bridge, `port0`, `iface0` with the address, and, with an uplink,
/// `port1` with the uplink's ethernet; each command stops the setup when it fails.
pub open spec fn complete_steps(bridge: Seq<char>, ip: Option<Seq<char>>, gw: Option<Seq<char>>, uplink: Option<Seq<char>>) -> Seq<NmStep> {
    seq![
        NmStep::Run(bridge_argv(bridge), "Failed to create OVS bridge"@),
        NmStep::Run(port_argv("port0"@, bridge), "Failed to create OVS port"@),
        NmStep::Run(interface_argv("iface0"@, "port0"@, ip, gw), "Failed to create OVS interface"@),
    ] + match uplink {
        Some(u) => seq![
            NmStep::Run(port_argv("port1"@, bridge), "Failed to create OVS port"@),
            NmStep::Run(ethernet_argv(u, "port1"@), "Failed to add ethernet interface"@),
        ],
        None => Seq::empty(),
    }
}

/// Plans the complete bridge setup.
pub fn setup_ovs_bridge_complete(bridge_name: &str, ip_addr: Option<&str>, gateway: Option<&str>, uplink: Option<&str>) -> (r: Vec<NmAction>)
    ensures
        steps(r@) == complete_steps(bridge_name@, opt_str(ip_addr), opt_str(gateway), opt_str(uplink)),
{
    let mut r: Vec<NmAction> = Vec::new();
    r.push(NmAction::Run { args: create_ovs_bridge_controlled(bridge_name), failure: owned("Failed to create OVS bridge") });
    r.push(NmAction::Run { args: create_ovs_port_controlled("port0", bridge_name), failure: owned("Failed to create OVS port") });
    r.push(NmAction::Run {
        args: create_ovs_interface_controlled("iface0", "port0", ip_addr, gateway),
        failure: owned("Failed to create OVS interface"),
    });
    match uplink {
        Some(u) => {
            r.push(NmAction::Run { args: create_ovs_port_controlled("port1", bridge_name), failure: owned("Failed to create OVS port") });
            r.push(NmAction::Run { args: add_ethernet_to_bridge(u, "port1"), failure: owned("Failed to add ethernet interface") });
        },
        None => {},
    }
    assert(steps(r@) =~= complete_steps(bridge_name@, opt_str(ip_addr), opt_str(gateway), opt_str(uplink)));
    r
}

/// The connection names of the OVS lines (those containing `ovs-`) of
/// `nmcli -t -f NAME,TYPE connection show` output: each line's text before its first `:`.
pub open spec fn ovs_connections(ls: Seq<Seq<char>>) -> Seq<Seq<char>>
    decreases ls.len(),
{
    if ls.len() == 0 {
        Seq::empty()
    } else if find(ls.last(), "ovs-"@) is Some {
        ovs_connections(ls.drop_last()).push(split_on(ls.last(), ':')[0])
    } else {
        ovs_connections(ls.drop_last())
    }
}


/// Reads the OVS connection names out of `nmcli -t -f NAME,TYPE connection show` output.
pub fn list_ovs_connections(output: &str) -> (r: Vec<String>)
    ensures
        texts(r@) == ovs_connections(lines(output@)),
{
    let ls = text_lines(output);
    let pat = crate::text::chars_of("ovs-");
    let mut out: Vec<String> = Vec::new();
    let mut i: usize = 0;
    while i < ls.len()
        invariant
            i <= ls@.len(),
            pat@ == "ovs-"@,
            texts(ls@) == lines(output@),
            texts(out@) == ovs_connections(lines(output@).subrange(0, i as int)),
        decreases ls@.len() - i,
    {
        let ghost pre = lines(output@).subrange(0, i as int);
        let ghost post = lines(output@).subrange(0, i + 1);
        assert(post.drop_last() =~= pre);
        assert(post.last() == ls@[i as int]@);
        let cs = crate::text::chars_of(ls[i].as_str());
        if find_chars(&cs, &pat, 0).is_some() {
            let parts = split_char(ls[i].as_str(), ':');
            proof {
                crate::lines::lemma_split_nonempty(ls@[i as int]@, ':');
            }
            assert(texts(parts@)[0] == parts@[0]@);
            let ghost before = out@;
            out.push(parts[0].clone());
            assert(texts(out@) =~= texts(before).push(parts@[0]@));
        }
        i = i + 1;
    }
    assert(lines(output@).subrange(0, ls@.len() as int) =~= lines(output@));
    out
}

} // verus!
