use nm_monitor::plan_run::{PlanRun, PlanStep};
use nm_monitor::systemd_net::{
    activate_bridge, bridge_listed, create_ovs_bridge, create_ovs_internal_port, create_ovs_uplink_port,
    ensure_bridge_topology, modify_ovs_bridge, ports_listed, remove_bridge, validate_bridge_topology, OvsBridgeConfig,
    SdAction,
};

fn show(a: &SdAction) -> String {
    match a {
        SdAction::WriteFile { path, content } => format!("write {path}\n{content}"),
        SdAction::Reload => "reload".to_string(),
        SdAction::Restart => "restart".to_string(),
        SdAction::Sleep(s) => format!("sleep {s}"),
        SdAction::RequireBridge { bridge, failure } => format!("require {bridge}: {failure}"),
        SdAction::RequireOvsBridge { bridge, failure } => format!("require-ovs {bridge}: {failure}"),
        SdAction::CheckPorts(b) => format!("ports {b}"),
        SdAction::RemoveIfExists(p) => format!("remove {p}"),
    }
}

fn plan(v: &[SdAction]) -> Vec<String> {
    v.iter().map(show).collect()
}

fn cfg(name: &str) -> OvsBridgeConfig {
    let mut c = OvsBridgeConfig::default();
    c.name = name.to_string();
    c
}

#[test]
fn bridge_files_follow_the_config() {
    let mut c = cfg("ovsbr0");
    c.stp_enable = true;
    c.datapath_type = Some("netdev".to_string());
    assert_eq!(
        plan(&create_ovs_bridge(&c, false)),
        vec![
            "write /etc/systemd/network/ovsbr0.netdev\n[NetDev]\nName=ovsbr0\nKind=ovs-bridge\nOVSBridge.STP=yes\nOVSBridge.RSTP=no\nOVSBridge.McastSnooping=yes\nOVSBridge.DatapathType=netdev\n",
            "write /etc/systemd/network/ovsbr0.network\n[Match]\nName=ovsbr0\n\n[Network]\nDHCP=yes\nIPv6AcceptRA=yes\n",
        ]
    );
    let existing = plan(&create_ovs_bridge(&cfg("ovsbr0"), true));
    assert_eq!(existing.len(), 3);
    assert_eq!(existing[2], "reload");
    assert_eq!(existing, plan(&modify_ovs_bridge(&cfg("ovsbr0"))));
}

#[test]
fn internal_and_uplink_files() {
    assert_eq!(
        plan(&create_ovs_internal_port("ovsbr0")),
        vec![
            "write /etc/systemd/network/ovsbr0_if.netdev\n[NetDev]\nName=ovsbr0_if\nKind=ovs-interface\n\n[OVSInterface]\nType=internal\nBridge=ovsbr0\n",
            "write /etc/systemd/network/ovsbr0_if.network\n[Match]\nName=ovsbr0_if\n\n[Network]\nDHCP=yes\nIPv6AcceptRA=yes\n",
            "reload",
        ]
    );
    assert_eq!(
        plan(&create_ovs_uplink_port("ovsbr0", "eth0")),
        vec!["write /etc/systemd/network/50-eth0.network\n[Match]\nName=eth0\n\n[Network]\nBridge=ovsbr0\n", "reload"]
    );
}

#[test]
fn activation_validation_and_removal() {
    assert_eq!(
        plan(&activate_bridge("ovsbr0", 2)),
        vec!["restart", "sleep 2", "require ovsbr0: Bridge ovsbr0 did not come up after restart"]
    );
    assert_eq!(
        plan(&validate_bridge_topology("ovsbr0")),
        vec![
            "require ovsbr0: Bridge ovsbr0 does not exist in systemd-networkd",
            "require-ovs ovsbr0: OVS bridge ovsbr0 does not exist",
            "ports ovsbr0",
        ]
    );
    assert_eq!(
        plan(&remove_bridge("ovsbr0")),
        vec![
            "remove /etc/systemd/network/ovsbr0.netdev",
            "remove /etc/systemd/network/ovsbr0.network",
            "remove /etc/systemd/network/ovsbr0_if.netdev",
            "remove /etc/systemd/network/ovsbr0_if.network",
            "reload",
        ]
    );
}

#[test]
fn topology_plan_runs_every_stage_in_order() {
    let with_uplink = plan(&ensure_bridge_topology("ovsbr0", Some("eth0"), 3, false));
    let mut expected = plan(&create_ovs_bridge(&cfg("ovsbr0"), false));
    expected.extend(plan(&create_ovs_internal_port("ovsbr0")));
    expected.extend(plan(&create_ovs_uplink_port("ovsbr0", "eth0")));
    expected.extend(plan(&activate_bridge("ovsbr0", 3)));
    expected.extend(plan(&validate_bridge_topology("ovsbr0")));
    assert_eq!(with_uplink, expected);
    let without = plan(&ensure_bridge_topology("ovsbr0", None, 3, true));
    assert_eq!(without.len(), 3 + 3 + 3 + 3);
    assert_eq!(without[2], "reload");
}

#[test]
fn networkctl_and_port_listings() {
    let out = "IDX LINK TYPE\n  1 lo loopback\n  5 ovsbr0 ether\n";
    assert!(bridge_listed(out, "ovsbr0"));
    assert!(!bridge_listed(out, "ovsbr1"));
    assert!(ports_listed("\n  \nveth1\n"));
    assert!(!ports_listed("\n   \n"));
    assert!(!ports_listed(""));
}

#[test]
fn plans_run_in_order_and_stop_at_the_first_failure() {
    let reports: Vec<Result<(), String>> = vec![Ok(()), Err("boom".to_string()), Ok(())];
    let (mut run, mut step) = PlanRun::start(3);
    let mut asked = vec![];
    while let PlanStep::Run(i) = step {
        asked.push(i);
        step = run.step(reports[i].clone());
    }
    assert_eq!(asked, vec![0, 1]);
    assert_eq!(run.outcome(), Err("boom".to_string()));
    let (mut run, mut step) = PlanRun::start(2);
    let mut asked = vec![];
    while let PlanStep::Run(i) = step {
        asked.push(i);
        step = run.step(Ok(()));
    }
    assert_eq!(asked, vec![0, 1]);
    assert_eq!(run.outcome(), Ok(()));
    let (run, step) = PlanRun::start(0);
    assert!(step == PlanStep::Done);
    assert_eq!(run.outcome(), Ok(()));
}
