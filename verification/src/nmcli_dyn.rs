//! Dynamic container ports through NetworkManager: connection names, the readings of
//! `nmcli` output they depend on, and the plans that add and remove a port.
use vstd::prelude::*;
use crate::text::{owned, texts, same_text};
use crate::lines::{lines, split_on, trim, text_lines, split_char, trim_text};
use crate::nm_bridge::{NmAction, NmStep, steps, push_all, joined};

verus! {

/// The ethernet connection of a dynamic port.
pub open spec fn eth_name(ifname: Seq<char>) -> Seq<char> {
    "dyn-eth-"@ + ifname
}

/// The OVS port connection of a dynamic port.
pub open spec fn port_name(ifname: Seq<char>) -> Seq<char> {
    "dyn-port-"@ + ifname
}

/// The ethernet connection name for `ifname`.
pub fn eth_conn_name(ifname: &str) -> (r: String)
    ensures
        r@ == eth_name(ifname@),
{
    joined("dyn-eth-", ifname)
}

/// The OVS port connection name for `ifname`.
pub fn port_conn_name(ifname: &str) -> (r: String)
    ensures
        r@ == port_name(ifname@),
{
    joined("dyn-port-", ifname)
}

/// The non-blank lines of `nmcli -t -f NAME c show` output, trimmed.
pub open spec fn connection_names(ls: Seq<Seq<char>>) -> Seq<Seq<char>>
    decreases ls.len(),
{
    if ls.len() == 0 {
        Seq::empty()
    } else if trim(ls.last()).len() > 0 {
        connection_names(ls.drop_last()).push(trim(ls.last()))
    } else {
        connection_names(ls.drop_last())
    }
}

/// Reads the connection names out of `nmcli -t -f NAME c show` output.
pub fn list_connection_names(output: &str) -> (r: Vec<String>)
    ensures
        texts(r@) == connection_names(lines(output@)),
{
    let ls = text_lines(output);
    let mut out: Vec<String> = Vec::new();
    let mut i: usize = 0;
    while i < ls.len()
        invariant
            i <= ls@.len(),
            texts(ls@) == lines(output@),
            texts(out@) == connection_names(lines(output@).subrange(0, i as int)),
        decreases ls@.len() - i,
    {
        let ghost pre = lines(output@).subrange(0, i as int);
        let ghost post = lines(output@).subrange(0, i + 1);
        assert(post.drop_last() =~= pre);
        assert(post.last() == ls@[i as int]@);
        let t = trim_text(ls[i].as_str());
        if !t.as_str().is_empty() {
            let ghost before = out@;
            out.push(t);
            assert(texts(out@) =~= texts(before).push(trim(ls@[i as int]@)));
        }
        i = i + 1;
    }
    assert(lines(output@).subrange(0, ls@.len() as int) =~= lines(output@));
    out
}

/// Whether `nmcli -t -f NAME,STATE connection show --active` output shows `name` activated.
pub open spec fn shows_active(output: Seq<char>, name: Seq<char>) -> bool {
    exists|i: int|
        0 <= i < lines(output).len() && #[trigger] split_on(lines(output)[i], ':').len() >= 2 && split_on(
            lines(output)[i],
            ':',
        )[0] == name && split_on(lines(output)[i], ':')[1] == "activated"@
}

/// Reads `nmcli -t -f NAME,STATE connection show --active` output: whether `name` is active.
pub fn connection_active(output: &str, name: &str) -> (r: bool)
    ensures
        r == shows_active(output@, name@),
{
    let ls = text_lines(output);
    let mut i: usize = 0;
    while i < ls.len()
        invariant
            i <= ls@.len(),
            texts(ls@) == lines(output@),
            forall|j: int|
                0 <= j < i ==> !(#[trigger] split_on(lines(output@)[j], ':').len() >= 2 && split_on(
                    lines(output@)[j],
                    ':',
                )[0] == name@ && split_on(lines(output@)[j], ':')[1] == "activated"@),
        decreases ls@.len() - i,
    {
        assert(texts(ls@)[i as int] == ls@[i as int]@);
        let parts = split_char(ls[i].as_str(), ':');
        assert(lines(output@)[i as int] == ls@[i as int]@);
        if parts.len() >= 2 && same_text(parts[0].as_str(), name) && same_text(parts[1].as_str(), "activated") {
            assert(texts(parts@)[0] == parts@[0]@);
            assert(texts(parts@)[1] == parts@[1]@);
            assert(split_on(lines(output@)[i as int], ':').len() >= 2);
            return true;
        }
        proof {
            if parts@.len() >= 2 {
                assert(texts(parts@)[0] == parts@[0]@);
                assert(texts(parts@)[1] == parts@[1]@);
            }
        }
        i = i + 1;
    }
    false
}

/// The plan that ensures a port: nothing when its port connection is already active;
/// otherwise the port connection recreated under the bridge, the ethernet connection
/// recreated under the port, and the ethernet brought up (a failed activation only reported).
pub open spec fn ensure_port_steps(bridge: Seq<char>, ifname: Seq<char>, port: Seq<char>, eth: Seq<char>, port_active: bool) -> Seq<NmStep> {
    if port_active {
        Seq::empty()
    } else {
        seq![
            NmStep::DeleteIfListed(port),
            NmStep::Run(
                seq!["conn"@, "add"@, "type"@, "ovs-port"@, "con-name"@, port, "ifname"@, port, "controller"@, bridge],
                "Failed to create OVS port "@ + port,
            ),
            NmStep::DeleteIfListed(eth),
            NmStep::Run(
                seq![
                    "conn"@,
                    "add"@,
                    "type"@,
                    "ethernet"@,
                    "con-name"@,
                    eth,
                    "ifname"@,
                    ifname,
                    "controller"@,
                    port,
                    "port-type"@,
                    "ovs-port"@,
                ],
                "Failed to create ethernet slave "@ + eth,
            ),
            NmStep::Try(seq!["-w"@, "10"@, "connection"@, "up"@, eth]),
        ]
    }
}

fn ensure_port_plan(bridge: &str, ifname: &str, port: &str, eth: &str, port_active: bool) -> (r: Vec<NmAction>)
    ensures
        steps(r@) == ensure_port_steps(bridge@, ifname@, port@, eth@, port_active),
{
    let mut r: Vec<NmAction> = Vec::new();
    if port_active {
        assert(steps(r@) =~= ensure_port_steps(bridge@, ifname@, port@, eth@, port_active));
        return r;
    }
    r.push(NmAction::DeleteIfListed(owned(port)));
    let p: [&str; 10] = ["conn", "add", "type", "ovs-port", "con-name", port, "ifname", port, "controller", bridge];
    let mut pa: Vec<String> = Vec::new();
    push_all(&mut pa, &p);
    assert(texts(pa@) =~= seq!["conn"@, "add"@, "type"@, "ovs-port"@, "con-name"@, port@, "ifname"@, port@, "controller"@, bridge@]);
    r.push(NmAction::Run { args: pa, failure: joined("Failed to create OVS port ", port) });
    r.push(NmAction::DeleteIfListed(owned(eth)));
    let e: [&str; 12] = ["conn", "add", "type", "ethernet", "con-name", eth, "ifname", ifname, "controller", port, "port-type", "ovs-port"];
    let mut ea: Vec<String> = Vec::new();
    push_all(&mut ea, &e);
    assert(texts(ea@) =~= seq![
        "conn"@,
        "add"@,
        "type"@,
        "ethernet"@,
        "con-name"@,
        eth@,
        "ifname"@,
        ifname@,
        "controller"@,
        port@,
        "port-type"@,
        "ovs-port"@,
    ]);
    r.push(NmAction::Run { args: ea, failure: joined("Failed to create ethernet slave ", eth) });
    let u: [&str; 5] = ["-w", "10", "connection", "up", eth];
    let mut ua: Vec<String> = Vec::new();
    push_all(&mut ua, &u);
    assert(texts(ua@) =~= seq!["-w"@, "10"@, "connection"@, "up"@, eth@]);
    r.push(NmAction::Try(ua));
    assert(steps(r@) =~= ensure_port_steps(bridge@, ifname@, port@, eth@, port_active));
    r
}

/// Plans a proactive port `ovs-port-{ifname}` with ethernet `ovs-eth-{ifname}` on `bridge`;
/// `port_active` is what `connection_active` read for the port connection.
pub fn ensure_proactive_port(bridge: &str, ifname: &str, port_active: bool) -> (r: Vec<NmAction>)
    ensures
        steps(r@) == ensure_port_steps(bridge@, ifname@, "ovs-port-"@ + ifname@, "ovs-eth-"@ + ifname@, port_active),
{
    let port = joined("ovs-port-", ifname);
    let eth = joined("ovs-eth-", ifname);
    ensure_port_plan(bridge, ifname, port.as_str(), eth.as_str(), port_active)
}

/// Plans a dynamic port `dyn-port-{ifname}` with ethernet `dyn-eth-{ifname}` on `bridge`;
/// `port_active` is what `connection_active` read for the port connection.
pub fn ensure_dynamic_port(bridge: &str, ifname: &str, port_active: bool) -> (r: Vec<NmAction>)
    ensures
        steps(r@) == ensure_port_steps(bridge@, ifname@, port_name(ifname@), eth_name(ifname@), port_active),
{
    let port = port_conn_name(ifname);
    let eth = eth_conn_name(ifname);
    ensure_port_plan(bridge, ifname, port.as_str(), eth.as_str(), port_active)
}

/// Plans the removal of a dynamic port: its ethernet taken down and deleted, then its port
/// deleted, each only if it exists.
pub fn remove_dynamic_port(ifname: &str) -> (r: Vec<NmAction>)
    ensures
        steps(r@) == seq![NmStep::DownDeleteIfListed(eth_name(ifname@)), NmStep::DeleteIfListed(port_name(ifname@))],
{
    let mut r: Vec<NmAction> = Vec::new();
    r.push(NmAction::DownDeleteIfListed(eth_conn_name(ifname)));
    r.push(NmAction::DeleteIfListed(port_conn_name(ifname)));
    assert(steps(r@) =~= seq![NmStep::DownDeleteIfListed(eth_name(ifname@)), NmStep::DeleteIfListed(port_name(ifname@))]);
    r
}

/// Plans the removal of a proactive port and its ethernet connection.
pub fn remove_proactive_port(port_name: &str, eth_name: &str) -> (r: Vec<NmAction>)
    ensures
        steps(r@) == seq![NmStep::DownDeleteIfListed(eth_name@), NmStep::DeleteIfListed(port_name@)],
{
    let mut r: Vec<NmAction> = Vec::new();
    r.push(NmAction::DownDeleteIfListed(owned(eth_name)));
    r.push(NmAction::DeleteIfListed(owned(port_name)));
    assert(steps(r@) =~= seq![NmStep::DownDeleteIfListed(eth_name@), NmStep::DeleteIfListed(port_name@)]);
    r
}

} // verus!
