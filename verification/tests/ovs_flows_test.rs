use nm_monitor::ovs_flows::{
    build_flow_string, join_with_commas, Application, FlowAction, FlowMatch, FlowPriority, FlowRule, OvsFlowManager,
    PrivacyPath,
};

fn s(t: &str) -> String {
    t.to_string()
}

#[test]
fn priorities_have_their_openflow_values() {
    assert_eq!(FlowPriority::ContainerSpecific.value(), 400);
    assert_eq!(FlowPriority::ApplicationAware.value(), 350);
    assert_eq!(FlowPriority::PrivacyRouting.value(), 300);
    assert_eq!(FlowPriority::GeographicRouting.value(), 250);
    assert_eq!(FlowPriority::SecurityPolicy.value(), 200);
    assert_eq!(FlowPriority::VlanIsolation.value(), 180);
    assert_eq!(FlowPriority::DdosProtection.value(), 150);
    assert_eq!(FlowPriority::Default.value(), 0);
}

#[test]
fn flow_text_lists_priority_matches_and_actions() {
    let rule = FlowRule {
        priority: FlowPriority::SecurityPolicy,
        matches: vec![FlowMatch::InPort(s("2")), FlowMatch::TcpDst(443), FlowMatch::Established],
        actions: vec![FlowAction::OutputWithQueue(s("3"), 1), FlowAction::RateLimit(100)],
        comment: s("c"),
    };
    assert_eq!(
        build_flow_string(&rule),
        "priority=200,in_port=2,tcp,tp_dst=443,ct_state=+est,actions=set_queue:1,output:3,set_field:100->rate"
    );
    let bare = FlowRule { priority: FlowPriority::Default, matches: vec![], actions: vec![FlowAction::Drop], comment: s("") };
    assert_eq!(build_flow_string(&bare), "priority=0,actions=drop");
    let none = FlowRule { priority: FlowPriority::Default, matches: vec![FlowMatch::Vlan(7)], actions: vec![], comment: s("") };
    assert_eq!(build_flow_string(&none), "priority=0,dl_vlan=7,actions=");
    assert_eq!(join_with_commas(&vec![s("a"), s("b"), s("c")]), "a,b,c");
    assert_eq!(join_with_commas(&vec![]), "");
}

#[test]
fn manager_commands_name_the_bridge() {
    let m = OvsFlowManager::new(s("ovsbr0"));
    assert_eq!(m.clear_all_flows(), vec!["del-flows", "ovsbr0"]);
    assert_eq!(m.dump_flows(), vec!["dump-flows", "ovsbr0"]);
    let rule = FlowRule { priority: FlowPriority::Default, matches: vec![], actions: vec![FlowAction::Normal], comment: s("") };
    assert_eq!(m.add_flow(&rule), vec!["add-flow", "ovsbr0", "priority=0,actions=NORMAL"]);
    assert_eq!(m.remove_flow(&rule), vec!["del-flows", "ovsbr0", "priority=0,actions=NORMAL"]);
}

#[test]
fn basic_routing_rules() {
    let m = OvsFlowManager::new(s("ovsbr0"));
    let cmds = m.setup_basic_routing("10.0.0.0/24", "eth0", "ovsbr0-if");
    let flows: Vec<&str> = cmds.iter().map(|c| c[2].as_str()).collect();
    assert_eq!(
        flows,
        vec![
            "priority=0,in_port=ovsbr0-if,ip,nw_src=10.0.0.0/24,actions=output:eth0",
            "priority=0,in_port=eth0,ip,nw_dst=10.0.0.0/24,actions=output:ovsbr0-if",
            "priority=350,in_port=ovsbr0-if,ip,nw_src=10.0.0.0/24,ip,nw_dst=10.0.0.0/24,actions=output:ovsbr0-if",
            "priority=0,actions=NORMAL",
        ]
    );
    assert!(cmds.iter().all(|c| c[0] == "add-flow" && c[1] == "ovsbr0"));
}

#[test]
fn container_flows_tag_and_queue() {
    let m = OvsFlowManager::new(s("ovsbr0"));
    let rules = m.generate_container_flows("10.0.0.5", 5);
    let texts: Vec<String> = rules.iter().map(build_flow_string).collect();
    assert_eq!(
        texts,
        vec![
            "priority=400,ip,nw_src=10.0.0.5,actions=set_field:1->reg0,output:5",
            "priority=350,ip,nw_src=10.0.0.5,tcp,tp_dst=80,actions=set_queue:1,output:5",
            "priority=350,ip,nw_src=10.0.0.5,tcp,tp_dst=22,actions=set_queue:0,output:5",
        ]
    );
    let vlan = m.setup_vlan_isolation(100, 2, "3");
    assert_eq!(vlan.len(), 1);
    assert_eq!(vlan[0][2], "priority=180,dl_vlan=100,actions=set_queue:2,output:3");
}

#[test]
fn privacy_paths_by_application() {
    let m = OvsFlowManager::new(s("b"));
    assert!(m.route_privacy_traffic(Application::Tor) == PrivacyPath::XrayReality);
    assert!(m.route_privacy_traffic(Application::Signal) == PrivacyPath::XrayReality);
    assert!(m.route_privacy_traffic(Application::Anonymous) == PrivacyPath::XrayReality);
    assert!(m.route_privacy_traffic(Application::Browser) == PrivacyPath::Warp);
    assert!(m.route_privacy_traffic(Application::Streaming) == PrivacyPath::WireGuard);
    assert!(m.route_privacy_traffic(Application::General) == PrivacyPath::WireGuard);
}

#[test]
fn container_flow_rules_hold_their_actions() {
    let m = OvsFlowManager::new(s("br0"));
    let r = m.generate_container_flows("10.0.0.5", 8080);
    assert_eq!(r.len(), 3);
    assert_eq!(r.iter().map(|x| x.priority.value()).collect::<Vec<_>>(), vec![400, 350, 350]);
    assert!(matches!(&r[0].matches[..], [FlowMatch::IpSrc(ip)] if ip == "10.0.0.5"));
    assert!(matches!(&r[0].actions[..], [FlowAction::SetField(f), FlowAction::Output(p)] if f == "1->reg0" && p == "8080"));
    assert!(matches!(&r[1].matches[..], [FlowMatch::IpSrc(ip), FlowMatch::TcpDst(80)] if ip == "10.0.0.5"));
    assert!(matches!(&r[1].actions[..], [FlowAction::SetQueue(1), FlowAction::Output(p)] if p == "8080"));
    assert!(matches!(&r[2].matches[..], [FlowMatch::IpSrc(ip), FlowMatch::TcpDst(22)] if ip == "10.0.0.5"));
    assert!(matches!(&r[2].actions[..], [FlowAction::SetQueue(0), FlowAction::Output(p)] if p == "8080"));
    assert_eq!(r[0].comment, "Container 10.0.0.5 routing");
    assert_eq!(r[1].comment, "Container 10.0.0.5 HTTP priority");
    assert_eq!(r[2].comment, "Container 10.0.0.5 SSH normal");
}
