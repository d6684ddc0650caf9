use nm_monitor::bridge_manager::{IpConfig, ZbusBridgeManager};
use nm_monitor::config::Config;
use nm_monitor::docker::DockerStatePlugin;
use nm_monitor::json::{copy_json, same_json, Json};
use nm_monitor::ledger::{BlockEnv, BlockchainLedger};
use nm_monitor::netcfg::{
    flow_spec, hostname_file, is_route_removable, parse_bridge_list, parse_flows, parse_hostname, parse_routes,
    parse_search_domains, resolv_conf_text, route_add_args, route_del_args, OvsFlowConfig, RouteConfig,
};
use nm_monitor::netconf::{InterfaceType, NetStatePlugin, NetworkStatePlugin};
use nm_monitor::netlink::{plan_container_interface, plan_with_links, InterfaceConfig};
use nm_monitor::netmaker::NetmakerStatePlugin;
use nm_monitor::ovsdb_wrapper::NetcfgStatePlugin;
use nm_monitor::plugins::{checkpoint_at, names_present, push_signed};
use nm_monitor::state::StateAction;

fn s(t: &str) -> String {
    t.to_string()
}

#[test]
fn test_docker_plugin_creation() {
    let plugin = DockerStatePlugin::new();
    assert_eq!(plugin.name(), "docker");
    assert_eq!(plugin.version(), "1.0.0");
}

#[test]
fn test_netmaker_plugin_creation() {
    let plugin = NetmakerStatePlugin::new();
    assert_eq!(plugin.name(), "netmaker");
    assert_eq!(plugin.version(), "1.0.0");
}

#[test]
fn test_bridge_creation() {
    let mut manager = ZbusBridgeManager::new();
    let state = manager.create_bridge("testbr0", Some("eth0"));
    assert_eq!(state.name, "testbr0");
    assert_eq!(state.uplink, Some("eth0".to_string()));
    assert!(!state.stp_enabled);
}

#[test]
fn created_bridge_accepts_ip_configuration() {
    let mut manager = ZbusBridgeManager::new();
    manager.create_bridge("br1", None);
    let ip = IpConfig { address: s("10.0.0.2/24"), gateway: Some(s("10.0.0.1")), dns: vec![s("1.1.1.1")] };
    assert!(manager.configure_ip("br1", ip).is_ok());
    let ip2 = IpConfig { address: s("10.0.0.3/24"), gateway: None, dns: Vec::new() };
    assert!(manager.configure_ip("missing", ip2).is_err());
    let states = manager.get_state();
    assert_eq!(states.len(), 1);
    assert_eq!(states[0].1.ip_config.as_ref().unwrap().address, "10.0.0.2/24");
}

#[test]
fn plugin_capabilities_and_names() {
    assert!(!DockerStatePlugin::new().capabilities().supports_rollback);
    assert!(NetStatePlugin::new().capabilities().supports_rollback);
    assert!(!NetStatePlugin::new().capabilities().atomic_operations);
    assert_eq!(NetStatePlugin::new().name(), "net");
    assert_eq!(NetworkStatePlugin::new().name(), "network");
    assert_eq!(NetcfgStatePlugin::new().name(), "netcfg");
    assert!(NetcfgStatePlugin::new().capabilities().supports_checkpoints);
}

#[test]
fn tracking_plugins_note_every_change() {
    let actions = vec![
        StateAction::Create { resource: s("container:web"), config: Json::Null },
        StateAction::NoOp { resource: s("x") },
        StateAction::Delete { resource: s("container:db") },
    ];
    let r = DockerStatePlugin::new().apply_changes(&actions);
    assert!(r.success);
    assert_eq!(r.changes_applied, vec![s("Tracked container state: container:web"), s("Noted container removal: container:db")]);
    let r = NetmakerStatePlugin::new().apply_changes(&actions);
    assert_eq!(r.changes_applied[0], "Tracked Netmaker container state: container:web");
    assert!(r.errors.is_empty());
}

#[test]
fn checkpoints_are_named_by_time() {
    let cp = checkpoint_at("docker", "docker", 1700000000, Json::Null);
    assert_eq!(cp.id, "docker-1700000000");
    assert_eq!(cp.plugin, "docker");
    let mut t = String::new();
    push_signed(&mut t, -42);
    assert_eq!(t, "-42");
    let mut m = String::new();
    push_signed(&mut m, i64::MIN);
    assert_eq!(m, i64::MIN.to_string());
}

#[test]
fn presence_of_desired_names() {
    let current = vec![s("eth0"), s("ovsbr0")];
    assert!(names_present(&vec![s("ovsbr0")], &current));
    assert!(!names_present(&vec![s("ovsbr0"), s("eth1")], &current));
    assert!(names_present(&Vec::new(), &current));
}

#[test]
fn netcfg_diff_modifies_changed_sections() {
    let current = Json::Object(vec![(s("dns"), Json::Object(vec![(s("hostname"), Json::Str(s("a")))]))]);
    let desired = Json::Object(vec![
        (s("routing"), Json::Array(Vec::new())),
        (s("dns"), Json::Object(vec![(s("hostname"), Json::Str(s("a")))])),
        (s("ovs_flows"), Json::Null),
    ]);
    let actions = NetcfgStatePlugin::new().diff_actions(&current, &desired);
    assert_eq!(actions.len(), 1);
    match &actions[0] {
        StateAction::Modify { resource, changes: Json::Object(ms) } => {
            assert_eq!(resource, "routing");
            assert_eq!(ms[0].0, "old");
            assert!(matches!(ms[0].1, Json::Null));
            assert_eq!(ms[1].0, "new");
            assert!(matches!(&ms[1].1, Json::Array(v) if v.is_empty()));
        },
        _ => panic!("expected a modify of the routing section"),
    }
}

#[test]
fn routes_and_flows_are_read_from_command_output() {
    let routes = parse_routes("default via 192.168.1.1 dev eth0\n10.0.0.0/8 via 172.16.0.1 dev ovsbr0 proto static\n172.16.0.0/24 dev ovsbr0 scope link\n");
    assert_eq!(routes.len(), 2);
    assert_eq!(routes[1].destination, "10.0.0.0/8");
    assert_eq!(routes[1].gateway, "172.16.0.1");
    assert_eq!(routes[1].interface, Some(s("ovsbr0")));
    assert!(routes[0].metric.is_none());
    let flows = parse_flows("ovsbr0", "NXST_FLOW reply (xid=0x4):\n cookie=0x0, duration=1s, priority=0 actions=NORMAL\ncookie=0x0, priority=200,ip actions=drop\n");
    assert_eq!(flows.len(), 1);
    assert_eq!(flows[0].bridge, "ovsbr0");
    assert_eq!(parse_bridge_list("ovsbr0\n\n  ovsbr1 \n"), vec![s("ovsbr0"), s("ovsbr1")]);
}

#[test]
fn resolver_settings_round_trip() {
    let content = "nameserver 1.1.1.1\nsearch a.example b.example\nsearch c.example\n";
    assert_eq!(parse_search_domains(content), Some(vec![s("a.example"), s("b.example"), s("c.example")]));
    assert_eq!(parse_search_domains("nameserver 8.8.8.8\n"), None);
    let text = resolv_conf_text(content, &vec![s("x.example"), s("y.example")]);
    assert_eq!(text, "search x.example y.example\nnameserver 1.1.1.1\n");
    assert_eq!(hostname_file("node1"), "node1\n");
    assert_eq!(parse_hostname("  node1\n"), "node1");
}

#[test]
fn route_and_flow_commands() {
    assert!(is_route_removable("10.0.0.0/8"));
    assert!(!is_route_removable("default"));
    assert!(!is_route_removable("169.254.0.0/16"));
    assert_eq!(route_del_args("10.0.0.0/8"), vec![s("route"), s("del"), s("10.0.0.0/8")]);
    let route = RouteConfig { destination: s("10.0.0.0/8"), gateway: s("172.16.0.1"), interface: Some(s("ovsbr0")), metric: Some(100), properties: None };
    assert_eq!(
        route_add_args(&route),
        vec![s("route"), s("add"), s("10.0.0.0/8"), s("via"), s("172.16.0.1"), s("dev"), s("ovsbr0"), s("metric"), s("100")]
    );
    let flow = OvsFlowConfig { bridge: s("ovsbr0"), priority: 200, match_rule: s("ip,nw_dst=10.0.0.0/8"), actions: s("output:1"), properties: None };
    assert_eq!(flow_spec(&flow), "priority=200,ip,nw_dst=10.0.0.0/8,actions=output:1");
}

#[test]
fn interface_details_from_ip_addr() {
    let out = "2: eth0: <UP> mtu 1500\n    inet 192.168.1.10/24 brd 192.168.1.255 scope global eth0\n    inet 10.1.1.1/300 scope global eth0\n";
    let c = NetworkStatePlugin::new().interface_details("eth0", out);
    assert!(c.if_type == InterfaceType::Ethernet);
    let v4 = c.ipv4.unwrap();
    assert!(v4.enabled);
    let addrs = v4.address.unwrap();
    assert_eq!(addrs.len(), 1);
    assert_eq!(addrs[0].ip, "192.168.1.10");
    assert_eq!(addrs[0].prefix, 24);
    let b = NetworkStatePlugin::new().interface_details("ovsbr0", "");
    assert!(b.if_type == InterfaceType::OvsBridge);
    let v4 = b.ipv4.unwrap();
    assert!(!v4.enabled);
    assert_eq!(v4.dhcp, Some(true));
}

#[test]
fn ovs_bridge_config_from_ovsdb_record() {
    let info = Json::Object(vec![
        (s("_uuid"), Json::Array(vec![Json::Str(s("uuid")), Json::Str(s("b-1"))])),
        (s("stp_enable"), Json::Bool(false)),
    ]);
    let ports = Json::Array(vec![Json::Str(s("eth0")), Json::Number(s("3"))]);
    let c = NetStatePlugin::new().ovs_bridge_config("ovsbr0", &info, Some(&ports));
    assert_eq!(c.name, "ovsbr0");
    assert_eq!(c.ports, Some(vec![s("eth0")]));
    let props = c.properties.unwrap();
    assert_eq!(props.len(), 1);
    assert_eq!(props[0].0, "stp_enable");
    assert_eq!(c.property_schema, Some(vec![s("ovsdb")]));
    let c = NetStatePlugin::new().ovs_bridge_config("ovsbr0", &info, None);
    assert!(c.ports.is_none());
}

#[test]
fn container_interface_naming() {
    let config = InterfaceConfig::new(s("ovsbr1"), s("veth100i0"), s("100"), 100);
    let plan = plan_container_interface(&config);
    assert_eq!(plan.target, "vi_100");
    // no link of that name exists on a test machine, so the raw interface is renamed
    assert!(plan.rename);
    let config = InterfaceConfig::new(s("ovsbr1"), s("veth100i0"), s("100"), 100).with_enable_rename(false);
    let plan = plan_container_interface(&config);
    assert_eq!(plan.target, "veth100i0");
    assert!(!plan.rename);
    let config = InterfaceConfig::new(s("ovsbr1"), s("vi_7"), s("7"), 7);
    assert!(!plan_container_interface(&config).rename);
}

#[test]
fn default_configuration_validates() {
    assert!(Config::default().validate().is_ok());
}

#[test]
fn empty_chain_verifies_and_added_blocks_are_found() {
    let mut ledger = BlockchainLedger::new(s("/tmp/nm-monitor-test/law.jsonl"), Vec::new());
    assert!(ledger.verify_chain());
    let env = BlockEnv { timestamp: 1700000000, hostname: s("host"), pid: 7 };
    let h = ledger.add_data("bridge", "created", s("{}"), &env).ok().unwrap();
    assert!(ledger.verify_chain());
    let b = ledger.get_block(&h).unwrap();
    assert_eq!(b.hash, h);
    assert_eq!(b.height, 1);
    assert!(ledger.add_data("nonsense", "x", s("{}"), &env).is_err());
    assert!(ledger.verify_chain());
}

#[test]
fn json_copies_have_the_same_content() {
    let j = Json::Object(vec![(s("a"), Json::Array(vec![Json::Bool(true), Json::Number(s("1.5"))]))]);
    let c = copy_json(&j);
    assert!(same_json(&j, &c));
    assert!(!same_json(&j, &Json::Object(vec![(s("a"), Json::Array(Vec::new()))])));
}

#[test]
fn rename_only_when_target_is_free() {
    let config = InterfaceConfig::new(s("ovsbr1"), s("veth100i0"), s("100"), 100);
    let free = plan_with_links(&config, false);
    assert_eq!(free.target, "vi_100");
    assert!(free.rename);
    let taken = plan_with_links(&config, true);
    assert_eq!(taken.target, "vi_100");
    assert!(!taken.rename);
    let same = InterfaceConfig::new(s("ovsbr1"), s("vi_7"), s("7"), 7);
    assert!(!plan_with_links(&same, false).rename);
}
