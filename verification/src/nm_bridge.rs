//! OVS bridges through NetworkManager: the `nmcli` commands that create a bridge, its
//! internal port and its uplink, the readings of `nmcli` output they depend on, and the
//! order in which a topology is brought up and checked.
use vstd::prelude::*;
use vstd::string::*;
use crate::text::{push_str, push_decimal, dec, owned, texts, same_text};
use crate::plan_run::{run_plan, law_plan_stops_at_first_failure};
use crate::lines::{lines, split_on, trim, trim_end, has_suffix, text_lines, split_char, trim_text, trim_end_text, ends_with};

verus! {

/// An OVS bridge as NetworkManager holds it.
pub struct OvsBridgeConfig {
    pub name: String,
    pub stp_enable: bool,
    pub rstp_enable: bool,
    pub mcast_snooping_enable: bool,
    pub datapath_type: Option<String>,
    pub fail_mode: Option<String>,
}

impl Default for OvsBridgeConfig {
    fn default() -> (r: Self)
        ensures
            r.name@.len() == 0,
            !r.stp_enable,
            !r.rstp_enable,
            r.mcast_snooping_enable,
            r.datapath_type is None,
            r.fail_mode is None,
    {
        OvsBridgeConfig {
            name: String::new(),
            stp_enable: false,
            rstp_enable: false,
            mcast_snooping_enable: true,
            datapath_type: None,
            fail_mode: None,
        }
    }
}

/// Appends each string of `parts`.
pub fn push_all(out: &mut Vec<String>, parts: &[&str])
    ensures
        texts(final(out)@) == texts(old(out)@) + Seq::new(parts@.len(), |i: int| parts@[i]@),
{
    let ghost start = texts(out@);
    let mut i: usize = 0;
    while i < parts.len()
        invariant
            i <= parts@.len(),
            texts(out@) == start + Seq::new(i as nat, |k: int| parts@[k]@),
        decreases parts@.len() - i,
    {
        let ghost before = out@;
        out.push(owned(parts[i]));
        assert(texts(out@) =~= texts(before).push(parts@[i as int]@));
        assert(texts(out@) =~= start + Seq::new((i + 1) as nat, |k: int| parts@[k]@));
        i = i + 1;
    }
}

/// `yes` or `no`.
pub open spec fn yes_no(b: bool) -> Seq<char> {
    if b {
        "yes"@
    } else {
        "no"@
    }
}

fn yes_no_str(b: bool) -> (r: &'static str)
    ensures
        r@ == yes_no(b),
{
    if b {
        "yes"
    } else {
        "no"
    }
}

/// An optional `key value` pair.
pub open spec fn opt_pair(key: Seq<char>, v: Option<String>) -> Seq<Seq<char>> {
    match v {
        Some(s) => seq![key, s@],
        None => Seq::empty(),
    }
}

/// The bridge properties set on creation and modification.
pub open spec fn bridge_props(c: OvsBridgeConfig) -> Seq<Seq<char>> {
    seq![
        "ovs-bridge.stp"@,
        yes_no(c.stp_enable),
        "ovs-bridge.rstp"@,
        yes_no(c.rstp_enable),
        "ovs-bridge.mcast-snooping-enable"@,
        yes_no(c.mcast_snooping_enable),
        "connection.autoconnect"@,
        "yes"@,
        "connection.autoconnect-priority"@,
        "100"@,
        "connection.autoconnect-ports"@,
        "1"@,
        "connection.autoconnect-slaves"@,
        "1"@,
        "ipv4.method"@,
        "auto"@,
        "ipv6.method"@,
        "auto"@,
    ] + opt_pair("ovs-bridge.datapath-type"@, c.datapath_type) + opt_pair("ovs-bridge.fail-mode"@, c.fail_mode)
}

/// `nmcli` arguments that add the bridge connection.
pub open spec fn bridge_add_argv(c: OvsBridgeConfig) -> Seq<Seq<char>> {
    seq!["conn"@, "add"@, "type"@, "ovs-bridge"@, "con-name"@, c.name@, "conn.interface"@, c.name@]
        + bridge_props(c)
}

/// `nmcli` arguments that modify the bridge connection.
pub open spec fn bridge_modify_argv(c: OvsBridgeConfig) -> Seq<Seq<char>> {
    seq!["conn"@, "modify"@, c.name@, "connection.interface-name"@, c.name@] + bridge_props(c)
}

fn push_bridge_props(out: &mut Vec<String>, c: &OvsBridgeConfig)
    ensures
        texts(final(out)@) == texts(old(out)@) + bridge_props(*c),
{
    let ghost start = texts(out@);
    let fixed: [&str; 18] = [
        "ovs-bridge.stp",
        yes_no_str(c.stp_enable),
        "ovs-bridge.rstp",
        yes_no_str(c.rstp_enable),
        "ovs-bridge.mcast-snooping-enable",
        yes_no_str(c.mcast_snooping_enable),
        "connection.autoconnect",
        "yes",
        "connection.autoconnect-priority",
        "100",
        "connection.autoconnect-ports",
        "1",
        "connection.autoconnect-slaves",
        "1",
        "ipv4.method",
        "auto",
        "ipv6.method",
        "auto",
    ];
    push_all(out, &fixed);
    let ghost mid = texts(out@);
    match &c.datapath_type {
        Some(d) => {
            out.push(owned("ovs-bridge.datapath-type"));
            out.push(d.clone());
        },
        None => {},
    }
    assert(texts(out@) =~= mid + opt_pair("ovs-bridge.datapath-type"@, c.datapath_type));
    let ghost mid2 = texts(out@);
    match &c.fail_mode {
        Some(f) => {
            out.push(owned("ovs-bridge.fail-mode"));
            out.push(f.clone());
        },
        None => {},
    }
    assert(texts(out@) =~= mid2 + opt_pair("ovs-bridge.fail-mode"@, c.fail_mode));
    assert(Seq::new(fixed@.len(), |i: int| fixed@[i]@) =~= seq![
        "ovs-bridge.stp"@,
        yes_no(c.stp_enable),
        "ovs-bridge.rstp"@,
        yes_no(c.rstp_enable),
        "ovs-bridge.mcast-snooping-enable"@,
        yes_no(c.mcast_snooping_enable),
        "connection.autoconnect"@,
        "yes"@,
        "connection.autoconnect-priority"@,
        "100"@,
        "connection.autoconnect-ports"@,
        "1"@,
        "connection.autoconnect-slaves"@,
        "1"@,
        "ipv4.method"@,
        "auto"@,
        "ipv6.method"@,
        "auto"@,
    ]);
    assert(texts(out@) =~= start + bridge_props(*c));
}

/// The `nmcli` arguments that add the bridge connection of `config`.
pub fn bridge_add_args(config: &OvsBridgeConfig) -> (r: Vec<String>)
    ensures
        texts(r@) == bridge_add_argv(*config),
{
    let mut r: Vec<String> = Vec::new();
    r.push(owned("conn"));
    r.push(owned("add"));
    r.push(owned("type"));
    r.push(owned("ovs-bridge"));
    r.push(owned("con-name"));
    r.push(config.name.clone());
    r.push(owned("conn.interface"));
    r.push(config.name.clone());
    let ghost head = texts(r@);
    assert(head =~= seq!["conn"@, "add"@, "type"@, "ovs-bridge"@, "con-name"@, config.name@, "conn.interface"@, config.name@]);
    push_bridge_props(&mut r, config);
    r
}

/// The `nmcli` arguments that modify the bridge connection of `config`.
pub fn bridge_modify_args(config: &OvsBridgeConfig) -> (r: Vec<String>)
    ensures
        texts(r@) == bridge_modify_argv(*config),
{
    let mut r: Vec<String> = Vec::new();
    r.push(owned("conn"));
    r.push(owned("modify"));
    r.push(config.name.clone());
    r.push(owned("connection.interface-name"));
    r.push(config.name.clone());
    assert(texts(r@) =~= seq!["conn"@, "modify"@, config.name@, "connection.interface-name"@, config.name@]);
    push_bridge_props(&mut r, config);
    r
}

/// The internal port connection of a bridge.
pub open spec fn internal_port_name(bridge: Seq<char>) -> Seq<char> {
    bridge + "_port_int"@
}

/// The internal interface connection of a bridge.
pub open spec fn internal_iface_name(bridge: Seq<char>) -> Seq<char> {
    bridge + "_if"@
}

/// `nmcli` arguments that add an OVS port connection `port` under `bridge`.
pub open spec fn port_add_argv(port: Seq<char>, bridge: Seq<char>, priority: Seq<char>) -> Seq<Seq<char>> {
    seq![
        "conn"@,
        "add"@,
        "type"@,
        "ovs-port"@,
        "con-name"@,
        port,
        "conn.interface"@,
        port,
        "controller"@,
        bridge,
        "connection.autoconnect"@,
        "yes"@,
        "connection.autoconnect-priority"@,
        priority,
    ]
}

/// `nmcli` arguments that add the internal interface of a bridge.
pub open spec fn internal_iface_argv(bridge: Seq<char>) -> Seq<Seq<char>> {
    seq![
        "conn"@,
        "add"@,
        "type"@,
        "ovs-interface"@,
        "con-name"@,
        internal_iface_name(bridge),
        "conn.interface"@,
        internal_iface_name(bridge),
        "controller"@,
        internal_port_name(bridge),
        "port-type"@,
        "ovs-port"@,
        "ovs-interface.type"@,
        "internal"@,
        "connection.autoconnect"@,
        "yes"@,
        "connection.autoconnect-priority"@,
        "95"@,
        "ipv4.method"@,
        "auto"@,
        "ipv6.method"@,
        "auto"@,
    ]
}

/// The uplink port connection of a bridge.
pub open spec fn uplink_port_name(bridge: Seq<char>, ifname: Seq<char>) -> Seq<char> {
    bridge + "_port_"@ + ifname
}

/// The uplink ethernet connection of a bridge.
pub open spec fn uplink_eth_name(bridge: Seq<char>, ifname: Seq<char>) -> Seq<char> {
    bridge + "_uplink_"@ + ifname
}

/// `nmcli` arguments that add the uplink's ethernet connection.
pub open spec fn uplink_eth_argv(bridge: Seq<char>, ifname: Seq<char>) -> Seq<Seq<char>> {
    seq![
        "conn"@,
        "add"@,
        "type"@,
        "ethernet"@,
        "con-name"@,
        uplink_eth_name(bridge, ifname),
        "conn.interface"@,
        ifname,
        "controller"@,
        uplink_port_name(bridge, ifname),
        "port-type"@,
        "ovs-port"@,
        "connection.autoconnect"@,
        "yes"@,
        "connection.autoconnect-priority"@,
        "85"@,
    ]
}

pub fn joined(a: &str, b: &str) -> (r: String)
    ensures
        r@ == a@ + b@,
{
    let mut s = owned(a);
    push_str(&mut s, b);
    s
}

fn port_add_args(port: &str, bridge: &str, priority: &str) -> (r: Vec<String>)
    ensures
        texts(r@) == port_add_argv(port@, bridge@, priority@),
{
    let parts: [&str; 14] = [
        "conn",
        "add",
        "type",
        "ovs-port",
        "con-name",
        port,
        "conn.interface",
        port,
        "controller",
        bridge,
        "connection.autoconnect",
        "yes",
        "connection.autoconnect-priority",
        priority,
    ];
    let mut r: Vec<String> = Vec::new();
    push_all(&mut r, &parts);
    assert(texts(r@) =~= port_add_argv(port@, bridge@, priority@));
    r
}

/// What a step of a topology plan does.
pub enum NmAction {
    /// Run `nmcli` with `args`; when it fails, stop with `failure` and `nmcli`'s error output.
    Run { args: Vec<String>, failure: String },
    /// Delete the connection `name` if `nmcli` lists it; a failed delete is ignored.
    DeleteIfListed(String),
    /// Modify connection `name` with `modify` if it is listed, else add it with `add`.
    AddOrModify { name: String, add: Vec<String>, modify: Vec<String> },
    /// Run `nmcli` with `args`; when it fails, move the active ethernet profile of `ifname`
    /// under `port` and rename it `desired_id`.
    RunOrMigrate { args: Vec<String>, port: String, ifname: String, desired_id: String },
    /// Wait until the topology of the bridge is active.
    Validate(String),
    /// Run `nmcli` with `args`; a failure is only reported.
    Try(Vec<String>),
    /// Take the connection `name` down and delete it if it exists; failures are ignored.
    DownDeleteIfListed(String),
}

/// The mathematical content of a plan step.
pub enum NmStep {
    Run(Seq<Seq<char>>, Seq<char>),
    DeleteIfListed(Seq<char>),
    AddOrModify(Seq<char>, Seq<Seq<char>>, Seq<Seq<char>>),
    RunOrMigrate(Seq<Seq<char>>, Seq<char>, Seq<char>, Seq<char>),
    Validate(Seq<char>),
    Try(Seq<Seq<char>>),
    DownDeleteIfListed(Seq<char>),
}

/// The content of a step.
pub open spec fn step_of(a: NmAction) -> NmStep {
    match a {
        NmAction::Run { args, failure } => NmStep::Run(texts(args@), failure@),
        NmAction::DeleteIfListed(n) => NmStep::DeleteIfListed(n@),
        NmAction::AddOrModify { name, add, modify } => NmStep::AddOrModify(name@, texts(add@), texts(modify@)),
        NmAction::RunOrMigrate { args, port, ifname, desired_id } => NmStep::RunOrMigrate(
            texts(args@),
            port@,
            ifname@,
            desired_id@,
        ),
        NmAction::Validate(b) => NmStep::Validate(b@),
        NmAction::Try(args) => NmStep::Try(texts(args@)),
        NmAction::DownDeleteIfListed(n) => NmStep::DownDeleteIfListed(n@),
    }
}

/// The content of a plan.
pub open spec fn steps(p: Seq<NmAction>) -> Seq<NmStep> {
    Seq::new(p.len(), |i: int| step_of(p[i]))
}

/// The steps that create a bridge's internal port and interface: each connection deleted
/// when present and added afresh.
pub open spec fn internal_port_steps(bridge: Seq<char>) -> Seq<NmStep> {
    seq![
        NmStep::DeleteIfListed(internal_port_name(bridge)),
        NmStep::Run(port_add_argv(internal_port_name(bridge), bridge, "95"@), "Failed to create OVS port"@),
        NmStep::DeleteIfListed(internal_iface_name(bridge)),
        NmStep::Run(internal_iface_argv(bridge), "Failed to create OVS interface"@),
    ]
}

/// Creates the OVS port with the internal interface that carries the bridge's address.
pub fn create_ovs_internal_port(bridge: &str) -> (r: Vec<NmAction>)
    ensures
        steps(r@) == internal_port_steps(bridge@),
{
    let port = joined(bridge, "_port_int");
    let iface = joined(bridge, "_if");
    let mut r: Vec<NmAction> = Vec::new();
    r.push(NmAction::DeleteIfListed(port.clone()));
    r.push(NmAction::Run { args: port_add_args(port.as_str(), bridge, "95"), failure: owned("Failed to create OVS port") });
    r.push(NmAction::DeleteIfListed(iface.clone()));
    let parts: [&str; 22] = [
        "conn",
        "add",
        "type",
        "ovs-interface",
        "con-name",
        iface.as_str(),
        "conn.interface",
        iface.as_str(),
        "controller",
        port.as_str(),
        "port-type",
        "ovs-port",
        "ovs-interface.type",
        "internal",
        "connection.autoconnect",
        "yes",
        "connection.autoconnect-priority",
        "95",
        "ipv4.method",
        "auto",
        "ipv6.method",
        "auto",
    ];
    let mut args: Vec<String> = Vec::new();
    push_all(&mut args, &parts);
    assert(texts(args@) =~= internal_iface_argv(bridge@));
    r.push(NmAction::Run { args, failure: owned("Failed to create OVS interface") });
    assert(steps(r@) =~= internal_port_steps(bridge@));
    r
}

/// The steps that attach an uplink interface: its OVS port recreated, then its ethernet
/// connection recreated under the port (or the active profile migrated when that fails).
pub open spec fn uplink_steps(bridge: Seq<char>, ifname: Seq<char>) -> Seq<NmStep> {
    seq![
        NmStep::DeleteIfListed(uplink_port_name(bridge, ifname)),
        NmStep::Run(
            port_add_argv(uplink_port_name(bridge, ifname), bridge, "90"@),
            "Failed to create OVS uplink port"@,
        ),
        NmStep::DeleteIfListed(uplink_eth_name(bridge, ifname)),
        NmStep::RunOrMigrate(
            uplink_eth_argv(bridge, ifname),
            uplink_port_name(bridge, ifname),
            ifname,
            uplink_eth_name(bridge, ifname),
        ),
    ]
}

/// Creates the OVS port of an uplink interface and enslaves its ethernet connection.
pub fn create_ovs_uplink_port(bridge: &str, ifname: &str) -> (r: Vec<NmAction>)
    ensures
        steps(r@) == uplink_steps(bridge@, ifname@),
{
    let mut port = joined(bridge, "_port_");
    push_str(&mut port, ifname);
    let mut eth = joined(bridge, "_uplink_");
    push_str(&mut eth, ifname);
    let mut r: Vec<NmAction> = Vec::new();
    r.push(NmAction::DeleteIfListed(port.clone()));
    r.push(NmAction::Run {
        args: port_add_args(port.as_str(), bridge, "90"),
        failure: owned("Failed to create OVS uplink port"),
    });
    r.push(NmAction::DeleteIfListed(eth.clone()));
    let parts: [&str; 16] = [
        "conn",
        "add",
        "type",
        "ethernet",
        "con-name",
        eth.as_str(),
        "conn.interface",
        ifname,
        "controller",
        port.as_str(),
        "port-type",
        "ovs-port",
        "connection.autoconnect",
        "yes",
        "connection.autoconnect-priority",
        "85",
    ];
    let mut args: Vec<String> = Vec::new();
    push_all(&mut args, &parts);
    assert(texts(args@) =~= uplink_eth_argv(bridge@, ifname@));
    r.push(NmAction::RunOrMigrate { args, port: port.clone(), ifname: owned(ifname), desired_id: eth.clone() });
    assert(steps(r@) =~= uplink_steps(bridge@, ifname@));
    r
}

/// The `nmcli` arguments that bring a bridge up, waiting `wait` seconds.
pub open spec fn activate_argv(bridge: Seq<char>, wait: u32) -> Seq<Seq<char>> {
    seq!["-w"@, dec(wait as nat), "connection"@, "up"@, bridge]
}

/// The `nmcli` arguments that activate a bridge (NetworkManager brings its ports up with it).
pub fn activate_bridge(bridge: &str, wait_seconds: u32) -> (r: Vec<String>)
    ensures
        texts(r@) == activate_argv(bridge@, wait_seconds),
{
    let mut w = String::new();
    push_decimal(&mut w, wait_seconds as u64);
    let mut r: Vec<String> = Vec::new();
    r.push(owned("-w"));
    r.push(w);
    r.push(owned("connection"));
    r.push(owned("up"));
    r.push(owned(bridge));
    assert(texts(r@) =~= activate_argv(bridge@, wait_seconds));
    r
}

/// Whether `name` is listed in the output of `nmcli -t -f NAME connection show` (a line
/// equal to it once trimmed).
pub open spec fn listed(output: Seq<char>, name: Seq<char>) -> bool {
    exists|i: int| 0 <= i < lines(output).len() && trim(#[trigger] lines(output)[i]) == name
}

/// Reads `nmcli -t -f NAME connection show` output: whether connection `name` exists.
pub fn connection_listed(output: &str, name: &str) -> (r: bool)
    ensures
        r == listed(output@, name@),
{
    let ls = text_lines(output);
    let mut i: usize = 0;
    while i < ls.len()
        invariant
            i <= ls@.len(),
            texts(ls@) == lines(output@),
            forall|j: int| 0 <= j < i ==> trim(#[trigger] lines(output@)[j]) != name@,
        decreases ls@.len() - i,
    {
        let t = trim_text(ls[i].as_str());
        assert(texts(ls@)[i as int] == ls@[i as int]@);
        if same_text(t.as_str(), name) {
            return true;
        }
        i = i + 1;
    }
    false
}

/// The `NAME` of the first line of `nmcli -t -f NAME,DEVICE,TYPE connection show --active`
/// output whose device is `ifname` and whose type is `802-3-ethernet`.
pub open spec fn active_ethernet(output: Seq<char>, ifname: Seq<char>) -> Option<Seq<char>>
    decreases lines(output).len(),
{
    first_ethernet(lines(output), ifname)
}

/// The name of the first of the lines that is an ethernet connection on `ifname`.
pub open spec fn first_ethernet(ls: Seq<Seq<char>>, ifname: Seq<char>) -> Option<Seq<char>>
    decreases ls.len(),
{
    if ls.len() == 0 {
        None
    } else {
        let parts = split_on(ls[0], ':');
        if parts.len() >= 3 && parts[1] == ifname && parts[2] == "802-3-ethernet"@ {
            Some(parts[0])
        } else {
            first_ethernet(ls.subrange(1, ls.len() as int), ifname)
        }
    }
}

/// Finds the active ethernet connection of `ifname` in `nmcli` output.
pub fn find_active_ethernet(output: &str, ifname: &str) -> (r: Option<String>)
    ensures
        match active_ethernet(output@, ifname@) {
            Some(n) => r matches Some(s) && s@ == n,
            None => r is None,
        },
{
    let ls = text_lines(output);
    let mut i: usize = 0;
    assert(lines(output@).subrange(0, lines(output@).len() as int) =~= lines(output@));
    while i < ls.len()
        invariant
            i <= ls@.len(),
            texts(ls@) == lines(output@),
            first_ethernet(lines(output@), ifname@) == first_ethernet(
                lines(output@).subrange(i as int, lines(output@).len() as int),
                ifname@,
            ),
        decreases ls@.len() - i,
    {
        let ghost rest = lines(output@).subrange(i as int, lines(output@).len() as int);
        assert(rest[0] == ls@[i as int]@);
        assert(rest.subrange(1, rest.len() as int) =~= lines(output@).subrange(i + 1, lines(output@).len() as int));
        let parts = split_char(ls[i].as_str(), ':');
        if parts.len() >= 3 && same_text(parts[1].as_str(), ifname) && same_text(parts[2].as_str(), "802-3-ethernet") {
            assert(texts(parts@)[0] == parts@[0]@);
            return Some(parts[0].clone());
        }
        proof {
            if parts@.len() >= 3 {
                assert(texts(parts@)[1] == parts@[1]@);
                assert(texts(parts@)[2] == parts@[2]@);
            }
        }
        i = i + 1;
    }
    assert(lines(output@).subrange(i as int, lines(output@).len() as int) =~= Seq::<Seq<char>>::empty());
    None
}

/// The `nmcli` commands that move an active ethernet profile under `port` and rename it;
/// none when `ifname` has no active ethernet profile. A failed modify stops the migration; a
/// failed rename is ignored.
pub open spec fn migration_argvs(output: Seq<char>, port: Seq<char>, ifname: Seq<char>, desired: Seq<char>) -> Seq<Seq<Seq<char>>> {
    match active_ethernet(output, ifname) {
        Some(conn) => seq![
            seq![
                "conn"@,
                "modify"@,
                conn,
                "conn.interface"@,
                ifname,
                "controller"@,
                port,
                "port-type"@,
                "ovs-port"@,
                "connection.autoconnect"@,
                "yes"@,
                "connection.autoconnect-priority"@,
                "85"@,
            ],
            seq!["conn"@, "modify"@, conn, "connection.id"@, desired],
        ],
        None => Seq::empty(),
    }
}

/// Whether a failure of migration command number `step` (as `modify_ethernet_to_slave` lists
/// them) stops the migration: a failed modify does, a failed rename is let pass.
pub fn migration_failure_stops(step: usize) -> (r: bool)
    ensures
        r == (step == 0),
{
    step == 0
}

/// Given the output of `nmcli -t -f NAME,DEVICE,TYPE connection show --active`, the
/// commands that turn the active ethernet profile of `ifname` into a port of `port_name`
/// named `desired_id`.
pub fn modify_ethernet_to_slave(active_output: &str, port_name: &str, ifname: &str, desired_id: &str) -> (r: Vec<Vec<String>>)
    ensures
        Seq::new(r@.len(), |i: int| texts(r@[i]@)) == migration_argvs(active_output@, port_name@, ifname@, desired_id@),
{
    let mut r: Vec<Vec<String>> = Vec::new();
    match find_active_ethernet(active_output, ifname) {
        Some(conn) => {
            let parts: [&str; 13] = [
                "conn",
                "modify",
                conn.as_str(),
                "conn.interface",
                ifname,
                "controller",
                port_name,
                "port-type",
                "ovs-port",
                "connection.autoconnect",
                "yes",
                "connection.autoconnect-priority",
                "85",
            ];
            let mut m: Vec<String> = Vec::new();
            push_all(&mut m, &parts);
            let rename_parts: [&str; 5] = ["conn", "modify", conn.as_str(), "connection.id", desired_id];
            let mut n: Vec<String> = Vec::new();
            push_all(&mut n, &rename_parts);
            assert(texts(m@) =~= seq![
                "conn"@,
                "modify"@,
                conn@,
                "conn.interface"@,
                ifname@,
                "controller"@,
                port_name@,
                "port-type"@,
                "ovs-port"@,
                "connection.autoconnect"@,
                "yes"@,
                "connection.autoconnect-priority"@,
                "85"@,
            ]);
            assert(texts(n@) =~= seq!["conn"@, "modify"@, conn@, "connection.id"@, desired_id@]);
            r.push(m);
            r.push(n);
            assert(Seq::new(r@.len(), |i: int| texts(r@[i]@)) =~= migration_argvs(
                active_output@,
                port_name@,
                ifname@,
                desired_id@,
            ));
        },
        None => {
            assert(Seq::new(r@.len(), |i: int| texts(r@[i]@)) =~= migration_argvs(
                active_output@,
                port_name@,
                ifname@,
                desired_id@,
            ));
        },
    }
    r
}

/// Whether `nmcli -t -f GENERAL.STATE connection show NAME` output reports the connection
/// activated (it ends with `activated` once trailing whitespace is dropped).
pub fn state_is_activated(output: &str) -> (r: bool)
    ensures
        r == has_suffix(trim_end(output@), "activated"@),
{
    let t = trim_end_text(output);
    ends_with(t.as_str(), "activated")
}

/// The steps that bring up a bridge topology: the bridge connection added or modified, its
/// internal port, its uplink when there is one, activation, and validation.
pub open spec fn topology_steps(bridge: Seq<char>, cfg: OvsBridgeConfig, uplink: Option<Seq<char>>, wait: u32) -> Seq<NmStep> {
    seq![NmStep::AddOrModify(bridge, bridge_add_argv(cfg), bridge_modify_argv(cfg))] + internal_port_steps(bridge)
        + (match uplink {
        Some(u) => uplink_steps(bridge, u),
        None => Seq::empty(),
    }) + seq![NmStep::Run(activate_argv(bridge, wait), "Failed to activate bridge"@), NmStep::Validate(bridge)]
}

/// Bringing up a bridge topology goes step by step and stops at the first failure: the
/// bridge connection comes first, activation and then validation last; fed the reports `outs`
/// of the steps it asks for, the plan stops at the first step that fails, with that failure,
/// every earlier step having succeeded, and it succeeds only when every step does.
pub proof fn law_topology_stops_at_first_failure(
    bridge: Seq<char>,
    cfg: OvsBridgeConfig,
    uplink: Option<Seq<char>>,
    wait: u32,
    outs: Seq<Result<(), Seq<char>>>,
)
    requires
        outs.len() >= topology_steps(bridge, cfg, uplink, wait).len(),
    ensures
        ({
            let plan = topology_steps(bridge, cfg, uplink, wait);
            let (n, f) = run_plan(plan.len(), 0, outs);
            &&& plan[0] == NmStep::AddOrModify(bridge, bridge_add_argv(cfg), bridge_modify_argv(cfg))
            &&& plan[plan.len() - 2] == NmStep::Run(activate_argv(bridge, wait), "Failed to activate bridge"@)
            &&& plan[plan.len() - 1] == NmStep::Validate(bridge)
            &&& n <= plan.len()
            &&& (f is None <==> (forall|i: int| 0 <= i < plan.len() ==> #[trigger] outs[i] is Ok))
            &&& (f matches Some(e) ==> n < plan.len() && outs[n as int] == Err::<(), Seq<char>>(e))
            &&& forall|i: int| 0 <= i < n ==> #[trigger] outs[i] is Ok
        }),
{
    let plan = topology_steps(bridge, cfg, uplink, wait);
    law_plan_stops_at_first_failure(plan.len(), 0, outs);
}

/// The default bridge configuration named `name`.
pub open spec fn default_bridge(c: OvsBridgeConfig, name: Seq<char>) -> bool {
    &&& c.name@ == name
    &&& !c.stp_enable
    &&& !c.rstp_enable
    &&& c.mcast_snooping_enable
    &&& c.datapath_type is None
    &&& c.fail_mode is None
}

/// The plan that ensures the whole topology of `bridge` (bridge, internal port, optional
/// uplink), activates it and validates it.
pub fn ensure_bridge_topology(bridge: &str, uplink: Option<&str>, wait_seconds: u32) -> (r: Vec<NmAction>)
    ensures
        exists|c: OvsBridgeConfig|
            default_bridge(c, bridge@) && steps(r@) == topology_steps(
                bridge@,
                c,
                match uplink {
                    Some(u) => Some(u@),
                    None => None,
                },
                wait_seconds,
            ),
{
    let mut cfg = OvsBridgeConfig::default();
    cfg.name = owned(bridge);
    assert(default_bridge(cfg, bridge@));
    let mut r: Vec<NmAction> = Vec::new();
    r.push(NmAction::AddOrModify {
        name: owned(bridge),
        add: bridge_add_args(&cfg),
        modify: bridge_modify_args(&cfg),
    });
    let ghost p0 = steps(r@);
    let mut internal = create_ovs_internal_port(bridge);
    r.append(&mut internal);
    assert(steps(r@) =~= p0 + internal_port_steps(bridge@));
    let ghost p1 = steps(r@);
    match uplink {
        Some(u) => {
            let mut up = create_ovs_uplink_port(bridge, u);
            r.append(&mut up);
            assert(steps(r@) =~= p1 + uplink_steps(bridge@, u@));
        },
        None => {
            assert(steps(r@) =~= p1 + Seq::<NmStep>::empty());
        },
    }
    let ghost p2 = steps(r@);
    r.push(NmAction::Run { args: activate_bridge(bridge, wait_seconds), failure: owned("Failed to activate bridge") });
    r.push(NmAction::Validate(owned(bridge)));
    let ghost up: Option<Seq<char>> = match uplink {
        Some(u) => Some(u@),
        None => None,
    };
    assert(steps(r@) =~= topology_steps(bridge@, cfg, up, wait_seconds));
    r
}

/// How many times the topology is looked at before validation gives its verdict.
pub const VALIDATION_ATTEMPTS: usize = 12;

/// What validation does after one look at the topology.
pub enum ValidationStep {
    /// The topology is good enough: stop.
    Valid,
    /// Wait a second and look again.
    Retry,
    /// The topology is not active: fail.
    Invalid,
}

/// Validation after look number `attempt` (from 0): all three connections active is valid at
/// once; otherwise it looks again while attempts remain, and after the last one it accepts
/// an active bridge and port even with an inactive interface.
pub open spec fn validation_step(attempt: nat, bridge_active: bool, port_active: bool, if_active: bool) -> ValidationStep {
    if bridge_active && port_active && if_active {
        ValidationStep::Valid
    } else if attempt + 1 < 12 {
        ValidationStep::Retry
    } else if bridge_active && port_active {
        ValidationStep::Valid
    } else {
        ValidationStep::Invalid
    }
}

/// Decides what validation does after look number `attempt`.
pub fn validate_step(attempt: usize, bridge_active: bool, port_active: bool, if_active: bool) -> (r: ValidationStep)
    ensures
        r == validation_step(attempt as nat, bridge_active, port_active, if_active),
{
    if bridge_active && port_active && if_active {
        ValidationStep::Valid
    } else if attempt < VALIDATION_ATTEMPTS - 1 {
        ValidationStep::Retry
    } else if bridge_active && port_active {
        ValidationStep::Valid
    } else {
        ValidationStep::Invalid
    }
}

/// The connections that must exist for a topology to validate: the bridge, its internal
/// port and its internal interface.
pub fn required_connections(bridge: &str) -> (r: Vec<String>)
    ensures
        texts(r@) == seq![bridge@, internal_port_name(bridge@), internal_iface_name(bridge@)],
{
    let mut r: Vec<String> = Vec::new();
    r.push(owned(bridge));
    r.push(joined(bridge, "_port_int"));
    r.push(joined(bridge, "_if"));
    assert(texts(r@) =~= seq![bridge@, internal_port_name(bridge@), internal_iface_name(bridge@)]);
    r
}

} // verus!
