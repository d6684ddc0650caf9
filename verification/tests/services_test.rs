use nm_monitor::json::Json;
use nm_monitor::nm_bridge::OvsBridgeConfig;
use nm_monitor::services::{BlockchainService, NetworkStateService, PortManagementService};

#[test]
fn test_ovs_bridge_config_default() {
    let config = OvsBridgeConfig::default();
    assert!(!config.stp_enable);
    assert!(!config.rstp_enable);
    assert!(config.mcast_snooping_enable);
    assert!(config.datapath_type.is_none());
    assert!(config.fail_mode.is_none());
}

#[test]
fn test_network_state_service_creation() {
    let _service = NetworkStateService::new();
}

#[test]
fn test_port_management_service_creation() {
    let service = PortManagementService::new("vmbr0".to_string(), "/var/lib/ledger.jsonl".to_string());
    assert_eq!(service.bridge, "vmbr0");
    assert_eq!(service.ledger_path, "/var/lib/ledger.jsonl");
}

#[test]
fn test_list_ports_handles_error_gracefully() {
    let service = PortManagementService::new("nonexistent-bridge".to_string(), "/tmp/ledger.jsonl".to_string());
    assert_eq!(service.bridge, "nonexistent-bridge");
}

fn status_of(answer: &Json) -> String {
    answer.get("status").and_then(|v| v.as_str()).unwrap().to_string()
}

#[test]
fn test_blockchain_service_creation() {
    let ledger_path = "/tmp/nm-monitor-test/test_ledger.jsonl".to_string();
    let service = BlockchainService::new(ledger_path.clone());
    assert_eq!(service.ledger_path, ledger_path);
}

#[test]
fn test_add_and_get_data() {
    let service = BlockchainService::new("/tmp/nm-monitor-test/test_ledger.jsonl".to_string());

    let data = Json::Object(vec![
        ("test".to_string(), Json::Str("value".to_string())),
        ("count".to_string(), Json::Number("42".to_string())),
    ]);
    let result = service.add_data("interface", "created", data);
    assert!(result.is_ok(), "Failed to add data: {:?}", result.err().map(|e| e.to_string()));

    let stats = service.get_stats();
    assert!(stats.is_ok());
    let stats = stats.ok().unwrap();
    assert_eq!(status_of(&stats), "streaming_blockchain_active");
}

#[test]
fn test_verify_empty_chain() {
    let service = BlockchainService::new("/tmp/nm-monitor-test/test_ledger.jsonl".to_string());

    let result = service.verify_chain();
    assert!(result.is_ok());
    let result_json = result.ok().unwrap();
    assert_eq!(status_of(&result_json), "streaming_blockchain_active");
}

#[test]
fn test_invalid_height_range() {
    let service = BlockchainService::new("/tmp/nm-monitor-test/test_ledger.jsonl".to_string());

    let result = service.get_blocks_by_height(10, 5);
    assert!(result.is_err());
    assert!(result.err().unwrap().to_string().contains("Invalid height range"));
}

#[test]
fn test_get_networkd_state() {
    let service = NetworkStateService::new();
    let state = service.networkd_state(&None, &None, &None, &None, &None, &None);
    assert!(!state.version.is_empty());
    assert_eq!(state.version, "unknown");
    assert_eq!((state.active_connections, state.total_connections, state.devices), (0, 0, 0));
    let state = service.networkd_state(
        &Some("systemd 255 (255.4-1)\n".to_string()),
        &Some(" routable ".to_string()),
        &Some("online".to_string()),
        &Some("1 lo\n2 eth0\n".to_string()),
        &Some("a\nb\nc".to_string()),
        &Some("".to_string()),
    );
    assert_eq!(state.version, "systemd 255 (255.4-1)");
    assert_eq!(state.state, "routable");
    assert_eq!(state.connectivity, "online");
    assert_eq!((state.active_connections, state.total_connections, state.devices), (2, 3, 0));
}

#[test]
fn test_get_connectivity_status() {
    let service = NetworkStateService::new();
    let status = service.connectivity_status(false, false, &None, &None);
    assert!(!status.default_route.is_empty());
    assert_eq!(status.default_route, "unknown");
    assert_eq!(status.uplink_status, "unknown");
    let status = service.connectivity_status(
        true,
        false,
        &Some("default via 10.0.0.1 dev eth0\n".to_string()),
        &Some("lo:carrier\neth0:routable\nwlan0:off\n".to_string()),
    );
    assert!(status.internet_reachable && !status.dns_working);
    assert_eq!(status.default_route, "default via 10.0.0.1 dev eth0");
    assert_eq!(status.uplink_status, "routable");
}

#[test]
fn ovs_bridge_states_from_listing() {
    let service = NetworkStateService::new();
    let names = vec!["ovsbr0".to_string(), "  ".to_string(), " lo ".to_string()];
    let conns = Some("ovsbr0:activated\nlo:deactivating\n".to_string());
    let states = service.get_ovs_bridge_states(&names, &conns);
    assert_eq!(states.len(), 2);
    assert_eq!(states[0].name, "ovsbr0");
    assert!(states[0].active);
    assert!(states[0].ports.is_empty());
    assert!(states[0].interfaces.is_empty());
    assert_eq!(states[0].datapath_type, "system");
    assert_eq!(states[1].name, "lo");
    assert!(!states[1].active);
    assert_eq!(states[1].interfaces, vec!["lo"]);
    let quiet = service.get_ovs_bridge_states(&names, &None);
    assert!(quiet.iter().all(|s| !s.active));
}

#[test]
fn blockchain_answers_carry_their_subject() {
    let service = BlockchainService::new("/tmp/l.jsonl".to_string());
    let by_cat = service.get_blocks_by_category("network").ok().unwrap();
    assert_eq!(by_cat.get("category").and_then(|v| v.as_str()), Some("network"));
    assert_eq!(status_of(&by_cat), "streaming_blockchain_active");
    let stats = service.get_stats().ok().unwrap();
    assert_eq!(stats.get("ledger_path").and_then(|v| v.as_str()), Some("/tmp/l.jsonl"));
    let by_height = service.get_blocks_by_height(3, 7).ok().unwrap();
    assert!(matches!(by_height.get("start_height"), Some(Json::Number(n)) if n == "3"));
    assert!(matches!(by_height.get("end_height"), Some(Json::Number(n)) if n == "7"));
    let added = service.add_data("storage", "mount", Json::Null).ok().unwrap();
    assert_eq!(added.get("action").and_then(|v| v.as_str()), Some("mount"));
    assert_eq!(added.get("category").and_then(|v| v.as_str()), Some("storage"));
}
