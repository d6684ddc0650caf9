//! OVS bridges through systemd-networkd: the `.netdev` and `.network` files of a bridge,
//! its internal interface and its uplink, and the order in which they are written,
//! loaded, activated and checked.
use vstd::prelude::*;
use vstd::string::*;
use crate::text::{push_str, owned, texts};
use crate::lines::{lines, trim, text_lines, trim_text};
use crate::interfaces::{find, find_chars};
use crate::nm_bridge::yes_no;

verus! {

/// An OVS bridge as systemd-networkd holds it.
pub struct OvsBridgeConfig {
    pub name: String,
    pub stp_enable: bool,
    pub rstp_enable: bool,
    pub mcast_snooping_enable: bool,
    pub datapath_type: Option<String>,
    pub fail_mode: Option<String>,
}

impl Default for OvsBridgeConfig {
    fn default() -> (r: Self)
        ensures
            r.name@.len() == 0,
            !r.stp_enable,
            !r.rstp_enable,
            r.mcast_snooping_enable,
            r.datapath_type is None,
            r.fail_mode is None,
    {
        OvsBridgeConfig {
            name: String::new(),
            stp_enable: false,
            rstp_enable: false,
            mcast_snooping_enable: true,
            datapath_type: None,
            fail_mode: None,
        }
    }
}

/// One step of a systemd-networkd plan.
pub enum SdAction {
    /// Write `content` to the file at `path`; a failed write stops the plan.
    WriteFile { path: String, content: String },
    /// `networkctl reload`: when `networkctl` cannot be run, the plan stops with `Failed to
    /// reload systemd-networkd`; when it runs and fails, the failure is only reported.
    Reload,
    /// `systemctl restart systemd-networkd`; a failure stops the plan.
    Restart,
    /// Wait this many seconds.
    Sleep(u32),
    /// Stop with `failure` unless `networkctl list` shows the bridge.
    RequireBridge { bridge: String, failure: String },
    /// Stop with `failure` unless `ovs-vsctl br-exists` succeeds for the bridge.
    RequireOvsBridge { bridge: String, failure: String },
    /// Report a bridge without ports (read from `ovs-vsctl list-ports`).
    CheckPorts(String),
    /// Remove the file at this path if it exists.
    RemoveIfExists(String),
}

/// The mathematical content of a step.
pub enum SdStep {
    WriteFile(Seq<char>, Seq<char>),
    Reload,
    Restart,
    Sleep(u32),
    RequireBridge(Seq<char>, Seq<char>),
    RequireOvsBridge(Seq<char>, Seq<char>),
    CheckPorts(Seq<char>),
    RemoveIfExists(Seq<char>),
}

/// The content of a step.
pub open spec fn sd_step(a: SdAction) -> SdStep {
    match a {
        SdAction::WriteFile { path, content } => SdStep::WriteFile(path@, content@),
        SdAction::Reload => SdStep::Reload,
        SdAction::Restart => SdStep::Restart,
        SdAction::Sleep(s) => SdStep::Sleep(s),
        SdAction::RequireBridge { bridge, failure } => SdStep::RequireBridge(bridge@, failure@),
        SdAction::RequireOvsBridge { bridge, failure } => SdStep::RequireOvsBridge(bridge@, failure@),
        SdAction::CheckPorts(b) => SdStep::CheckPorts(b@),
        SdAction::RemoveIfExists(p) => SdStep::RemoveIfExists(p@),
    }
}

/// The content of a plan.
pub open spec fn sd_steps(p: Seq<SdAction>) -> Seq<SdStep> {
    Seq::new(p.len(), |i: int| sd_step(p[i]))
}

/// A file under `/etc/systemd/network`.
pub open spec fn network_file(name: Seq<char>) -> Seq<char> {
    "/etc/systemd/network/"@ + name
}

/// The `.netdev` file of a bridge.
pub open spec fn bridge_netdev(c: OvsBridgeConfig) -> Seq<char> {
    "[NetDev]\nName="@ + c.name@ + "\nKind=ovs-bridge\n"@ + "OVSBridge.STP="@ + yes_no(c.stp_enable) + "\n"@
        + "OVSBridge.RSTP="@ + yes_no(c.rstp_enable) + "\n"@ + "OVSBridge.McastSnooping="@ + yes_no(
        c.mcast_snooping_enable,
    ) + "\n"@ + (match c.datapath_type {
        Some(d) => "OVSBridge.DatapathType="@ + d@ + "\n"@,
        None => Seq::empty(),
    })
}

/// The `.network` file that gets an interface its address by DHCP and router advertisements.
pub open spec fn dhcp_network(name: Seq<char>) -> Seq<char> {
    "[Match]\nName="@ + name + "\n\n[Network]\nDHCP=yes\nIPv6AcceptRA=yes\n"@
}

/// The steps that write a bridge's two files.
pub open spec fn bridge_file_steps(c: OvsBridgeConfig) -> Seq<SdStep> {
    seq![
        SdStep::WriteFile(network_file(c.name@ + ".netdev"@), bridge_netdev(c)),
        SdStep::WriteFile(network_file(c.name@ + ".network"@), dhcp_network(c.name@)),
    ]
}

fn text2(a: &str, b: &str) -> (r: String)
    ensures
        r@ == a@ + b@,
{
    let mut s = owned(a);
    push_str(&mut s, b);
    s
}

fn text3(a: &str, b: &str, c: &str) -> (r: String)
    ensures
        r@ == a@ + b@ + c@,
{
    let mut s = owned(a);
    push_str(&mut s, b);
    push_str(&mut s, c);
    s
}

fn yes_no_text(b: bool) -> (r: &'static str)
    ensures
        r@ == yes_no(b),
{
    if b {
        "yes"
    } else {
        "no"
    }
}

fn push_bridge_files(out: &mut Vec<SdAction>, config: &OvsBridgeConfig)
    ensures
        sd_steps(final(out)@) == sd_steps(old(out)@) + bridge_file_steps(*config),
{
    let ghost start = sd_steps(out@);
    let mut netdev = text3("[NetDev]\nName=", config.name.as_str(), "\nKind=ovs-bridge\n");
    push_str(&mut netdev, "OVSBridge.STP=");
    push_str(&mut netdev, yes_no_text(config.stp_enable));
    push_str(&mut netdev, "\n");
    push_str(&mut netdev, "OVSBridge.RSTP=");
    push_str(&mut netdev, yes_no_text(config.rstp_enable));
    push_str(&mut netdev, "\n");
    push_str(&mut netdev, "OVSBridge.McastSnooping=");
    push_str(&mut netdev, yes_no_text(config.mcast_snooping_enable));
    push_str(&mut netdev, "\n");
    let ghost base = netdev@;
    match &config.datapath_type {
        Some(d) => {
            push_str(&mut netdev, "OVSBridge.DatapathType=");
            push_str(&mut netdev, d.as_str());
            push_str(&mut netdev, "\n");
            assert(netdev@ =~= base + ("OVSBridge.DatapathType="@ + d@ + "\n"@));
        },
        None => {
            assert(netdev@ =~= base + Seq::<char>::empty());
        },
    }
    assert(netdev@ =~= bridge_netdev(*config));
    let netdev_path = text3("/etc/systemd/network/", config.name.as_str(), ".netdev");
    assert(netdev_path@ =~= network_file(config.name@ + ".netdev"@));
    let network = text3("[Match]\nName=", config.name.as_str(), "\n\n[Network]\nDHCP=yes\nIPv6AcceptRA=yes\n");
    let network_path = text3("/etc/systemd/network/", config.name.as_str(), ".network");
    assert(network_path@ =~= network_file(config.name@ + ".network"@));
    out.push(SdAction::WriteFile { path: netdev_path, content: netdev });
    out.push(SdAction::WriteFile { path: network_path, content: network });
    assert(sd_steps(out@) =~= start + bridge_file_steps(*config));
}

/// The plan that rewrites a bridge's files and reloads systemd-networkd.
pub open spec fn modify_steps(c: OvsBridgeConfig) -> Seq<SdStep> {
    bridge_file_steps(c) + seq![SdStep::Reload]
}

/// Rewrites the bridge's configuration files and reloads systemd-networkd.
pub fn modify_ovs_bridge(config: &OvsBridgeConfig) -> (r: Vec<SdAction>)
    ensures
        sd_steps(r@) == modify_steps(*config),
{
    let mut r: Vec<SdAction> = Vec::new();
    push_bridge_files(&mut r, config);
    let ghost before = sd_steps(r@);
    r.push(SdAction::Reload);
    assert(sd_steps(r@) =~= modify_steps(*config)) by {
        assert(sd_steps(Seq::<SdAction>::empty()) =~= Seq::<SdStep>::empty());
    }
    r
}

/// Creates the bridge's files; a bridge that `networkctl` already lists (`exists`) is
/// modified instead.
pub fn create_ovs_bridge(config: &OvsBridgeConfig, exists: bool) -> (r: Vec<SdAction>)
    ensures
        sd_steps(r@) == (if exists { modify_steps(*config) } else { bridge_file_steps(*config) }),
{
    if exists {
        return modify_ovs_bridge(config);
    }
    let mut r: Vec<SdAction> = Vec::new();
    push_bridge_files(&mut r, config);
    assert(sd_steps(r@) =~= bridge_file_steps(*config)) by {
        assert(sd_steps(Seq::<SdAction>::empty()) =~= Seq::<SdStep>::empty());
    }
    r
}

/// The steps that create a bridge's internal interface `{bridge}_if`.
pub open spec fn internal_steps(bridge: Seq<char>) -> Seq<SdStep> {
    let i = bridge + "_if"@;
    seq![
        SdStep::WriteFile(
            network_file(i + ".netdev"@),
            "[NetDev]\nName="@ + i + "\nKind=ovs-interface\n\n[OVSInterface]\nType=internal\nBridge="@ + bridge + "\n"@,
        ),
        SdStep::WriteFile(network_file(i + ".network"@), dhcp_network(i)),
        SdStep::Reload,
    ]
}

/// Creates the bridge's internal interface.
pub fn create_ovs_internal_port(bridge: &str) -> (r: Vec<SdAction>)
    ensures
        sd_steps(r@) == internal_steps(bridge@),
{
    let iface = text2(bridge, "_if");
    let mut netdev = text3("[NetDev]\nName=", iface.as_str(), "\nKind=ovs-interface\n\n[OVSInterface]\nType=internal\nBridge=");
    push_str(&mut netdev, bridge);
    push_str(&mut netdev, "\n");
    let netdev_path = text3("/etc/systemd/network/", iface.as_str(), ".netdev");
    let network = text3("[Match]\nName=", iface.as_str(), "\n\n[Network]\nDHCP=yes\nIPv6AcceptRA=yes\n");
    let network_path = text3("/etc/systemd/network/", iface.as_str(), ".network");
    let ghost i = bridge@ + "_if"@;
    assert(netdev_path@ =~= network_file(i + ".netdev"@));
    assert(network_path@ =~= network_file(i + ".network"@));
    assert(netdev@ =~= "[NetDev]\nName="@ + i + "\nKind=ovs-interface\n\n[OVSInterface]\nType=internal\nBridge="@ + bridge@ + "\n"@);
    let mut r: Vec<SdAction> = Vec::new();
    r.push(SdAction::WriteFile { path: netdev_path, content: netdev });
    r.push(SdAction::WriteFile { path: network_path, content: network });
    r.push(SdAction::Reload);
    assert(sd_steps(r@) =~= internal_steps(bridge@));
    r
}

/// The steps that attach an uplink interface to the bridge.
pub open spec fn uplink_steps(bridge: Seq<char>, ifname: Seq<char>) -> Seq<SdStep> {
    seq![
        SdStep::WriteFile(
            network_file("50-"@ + ifname + ".network"@),
            "[Match]\nName="@ + ifname + "\n\n[Network]\nBridge="@ + bridge + "\n"@,
        ),
        SdStep::Reload,
    ]
}

/// Attaches an uplink interface to the bridge.
pub fn create_ovs_uplink_port(bridge: &str, ifname: &str) -> (r: Vec<SdAction>)
    ensures
        sd_steps(r@) == uplink_steps(bridge@, ifname@),
{
    let mut content = text3("[Match]\nName=", ifname, "\n\n[Network]\nBridge=");
    push_str(&mut content, bridge);
    push_str(&mut content, "\n");
    let path = text3("/etc/systemd/network/50-", ifname, ".network");
    proof {
        reveal_strlit("/etc/systemd/network/50-");
        reveal_strlit("/etc/systemd/network/");
        reveal_strlit("50-");
    }
    assert(path@ =~= network_file("50-"@ + ifname@ + ".network"@));
    let mut r: Vec<SdAction> = Vec::new();
    r.push(SdAction::WriteFile { path, content });
    r.push(SdAction::Reload);
    assert(sd_steps(r@) =~= uplink_steps(bridge@, ifname@));
    r
}

/// The steps that activate a bridge.
pub open spec fn activate_steps(bridge: Seq<char>, wait: u32) -> Seq<SdStep> {
    seq![
        SdStep::Restart,
        SdStep::Sleep(wait),
        SdStep::RequireBridge(bridge, "Bridge "@ + bridge + " did not come up after restart"@),
    ]
}

/// Restarts systemd-networkd, waits, and requires the bridge to be up.
pub fn activate_bridge(bridge: &str, wait_seconds: u32) -> (r: Vec<SdAction>)
    ensures
        sd_steps(r@) == activate_steps(bridge@, wait_seconds),
{
    let mut r: Vec<SdAction> = Vec::new();
    r.push(SdAction::Restart);
    r.push(SdAction::Sleep(wait_seconds));
    r.push(SdAction::RequireBridge {
        bridge: owned(bridge),
        failure: text3("Bridge ", bridge, " did not come up after restart"),
    });
    assert(sd_steps(r@) =~= activate_steps(bridge@, wait_seconds));
    r
}

/// The steps that validate a bridge.
pub open spec fn validate_steps(bridge: Seq<char>) -> Seq<SdStep> {
    seq![
        SdStep::RequireBridge(bridge, "Bridge "@ + bridge + " does not exist in systemd-networkd"@),
        SdStep::RequireOvsBridge(bridge, "OVS bridge "@ + bridge + " does not exist"@),
        SdStep::CheckPorts(bridge),
    ]
}

/// Checks the bridge in systemd-networkd and in OVS, and looks for its ports.
pub fn validate_bridge_topology(bridge: &str) -> (r: Vec<SdAction>)
    ensures
        sd_steps(r@) == validate_steps(bridge@),
{
    let mut r: Vec<SdAction> = Vec::new();
    r.push(SdAction::RequireBridge {
        bridge: owned(bridge),
        failure: text3("Bridge ", bridge, " does not exist in systemd-networkd"),
    });
    r.push(SdAction::RequireOvsBridge { bridge: owned(bridge), failure: text3("OVS bridge ", bridge, " does not exist") });
    r.push(SdAction::CheckPorts(owned(bridge)));
    assert(sd_steps(r@) =~= validate_steps(bridge@));
    r
}

/// The default bridge configuration named `name`.
pub open spec fn default_named(c: OvsBridgeConfig, name: Seq<char>) -> bool {
    &&& c.name@ == name
    &&& !c.stp_enable
    &&& !c.rstp_enable
    &&& c.mcast_snooping_enable
    &&& c.datapath_type is None
    &&& c.fail_mode is None
}

/// The whole topology plan: the bridge's files (modified when `networkctl` already lists
/// the bridge, `exists`), its internal interface, its uplink when there is one, activation
/// and validation.
pub open spec fn topology_steps(c: OvsBridgeConfig, exists: bool, uplink: Option<Seq<char>>, wait: u32) -> Seq<SdStep> {
    (if exists { modify_steps(c) } else { bridge_file_steps(c) }) + internal_steps(c.name@) + (match uplink {
        Some(u) => uplink_steps(c.name@, u),
        None => Seq::empty(),
    }) + activate_steps(c.name@, wait) + validate_steps(c.name@)
}

/// Plans the whole bridge topology.
pub fn ensure_bridge_topology(bridge: &str, uplink: Option<&str>, wait_seconds: u32, exists: bool) -> (r: Vec<SdAction>)
    ensures
        exists|c: OvsBridgeConfig|
            default_named(c, bridge@) && sd_steps(r@) == topology_steps(
                c,
                exists,
                match uplink {
                    Some(u) => Some(u@),
                    None => None,
                },
                wait_seconds,
            ),
{
    let mut cfg = OvsBridgeConfig::default();
    cfg.name = owned(bridge);
    assert(default_named(cfg, bridge@));
    let mut r = if exists {
        modify_ovs_bridge(&cfg)
    } else {
        create_ovs_bridge(&cfg, false)
    };
    let ghost p0 = sd_steps(r@);
    let mut internal = create_ovs_internal_port(bridge);
    r.append(&mut internal);
    assert(sd_steps(r@) =~= p0 + internal_steps(bridge@));
    let ghost p1 = sd_steps(r@);
    match uplink {
        Some(u) => {
            let mut up = create_ovs_uplink_port(bridge, u);
            r.append(&mut up);
            assert(sd_steps(r@) =~= p1 + uplink_steps(bridge@, u@));
        },
        None => {
            assert(sd_steps(r@) =~= p1 + Seq::<SdStep>::empty());
        },
    }
    let ghost p2 = sd_steps(r@);
    let mut act = activate_bridge(bridge, wait_seconds);
    r.append(&mut act);
    assert(sd_steps(r@) =~= p2 + activate_steps(bridge@, wait_seconds));
    let ghost p3 = sd_steps(r@);
    let mut val = validate_bridge_topology(bridge);
    r.append(&mut val);
    assert(sd_steps(r@) =~= p3 + validate_steps(bridge@));
    let ghost up: Option<Seq<char>> = match uplink {
        Some(u) => Some(u@),
        None => None,
    };
    assert(sd_steps(r@) =~= topology_steps(cfg, exists, up, wait_seconds));
    r
}

/// The files of a bridge, removed when the bridge goes, followed by a reload.
pub open spec fn remove_steps(bridge: Seq<char>) -> Seq<SdStep> {
    seq![
        SdStep::RemoveIfExists(network_file(bridge + ".netdev"@)),
        SdStep::RemoveIfExists(network_file(bridge + ".network"@)),
        SdStep::RemoveIfExists(network_file(bridge + "_if.netdev"@)),
        SdStep::RemoveIfExists(network_file(bridge + "_if.network"@)),
        SdStep::Reload,
    ]
}

/// Removes a bridge's configuration files and reloads systemd-networkd.
pub fn remove_bridge(bridge: &str) -> (r: Vec<SdAction>)
    ensures
        sd_steps(r@) == remove_steps(bridge@),
{
    let mut r: Vec<SdAction> = Vec::new();
    let a = text3("/etc/systemd/network/", bridge, ".netdev");
    let b = text3("/etc/systemd/network/", bridge, ".network");
    let c = text3("/etc/systemd/network/", bridge, "_if.netdev");
    let d = text3("/etc/systemd/network/", bridge, "_if.network");
    assert(a@ =~= network_file(bridge@ + ".netdev"@));
    assert(b@ =~= network_file(bridge@ + ".network"@));
    assert(c@ =~= network_file(bridge@ + "_if.netdev"@));
    assert(d@ =~= network_file(bridge@ + "_if.network"@));
    r.push(SdAction::RemoveIfExists(a));
    r.push(SdAction::RemoveIfExists(b));
    r.push(SdAction::RemoveIfExists(c));
    r.push(SdAction::RemoveIfExists(d));
    r.push(SdAction::Reload);
    assert(sd_steps(r@) =~= remove_steps(bridge@));
    r
}

/// Whether `networkctl list --no-pager` output shows `name` (on a line that contains it).
pub open spec fn shows_link(output: Seq<char>, name: Seq<char>) -> bool {
    exists|i: int| 0 <= i < lines(output).len() && find(#[trigger] lines(output)[i], name) is Some
}

/// Reads `networkctl list --no-pager` output: whether the bridge exists.
pub fn bridge_listed(output: &str, name: &str) -> (r: bool)
    ensures
        r == shows_link(output@, name@),
{
    let ls = text_lines(output);
    let ns = crate::text::chars_of(name);
    let mut i: usize = 0;
    while i < ls.len()
        invariant
            i <= ls@.len(),
            ns@ == name@,
            texts(ls@) == lines(output@),
            forall|j: int| 0 <= j < i ==> find(#[trigger] lines(output@)[j], name@) is None,
        decreases ls@.len() - i,
    {
        let cs = crate::text::chars_of(ls[i].as_str());
        assert(texts(ls@)[i as int] == ls@[i as int]@);
        if find_chars(&cs, &ns, 0).is_some() {
            return true;
        }
        i = i + 1;
    }
    false
}

/// Whether `ovs-vsctl list-ports` output names any port (a line that is not blank).
pub open spec fn has_ports(output: Seq<char>) -> bool {
    exists|i: int| 0 <= i < lines(output).len() && trim(#[trigger] lines(output)[i]).len() > 0
}

/// Reads `ovs-vsctl list-ports` output: whether the bridge has a port.
pub fn ports_listed(output: &str) -> (r: bool)
    ensures
        r == has_ports(output@),
{
    let ls = text_lines(output);
    let mut i: usize = 0;
    while i < ls.len()
        invariant
            i <= ls@.len(),
            texts(ls@) == lines(output@),
            forall|j: int| 0 <= j < i ==> trim(#[trigger] lines(output@)[j]).len() == 0,
        decreases ls@.len() - i,
    {
        let t = trim_text(ls[i].as_str());
        assert(texts(ls@)[i as int] == ls@[i as int]@);
        if !t.as_str().is_empty() {
            return true;
        }
        i = i + 1;
    }
    false
}

} // verus!
