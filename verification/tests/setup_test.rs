use nm_monitor::atomic_setup::{bridge_netdev_text, bridge_network_text, dns_servers_from, uplink_from_outputs, uplink_network_text};
use nm_monitor::error::Error;
use nm_monitor::link::container_short_name_from_ifname;
use nm_monitor::nm_bridge::NmAction;
use nm_monitor::nmcli_dyn::{
    connection_active, ensure_dynamic_port, ensure_proactive_port, eth_conn_name, list_connection_names, port_conn_name,
    remove_dynamic_port, remove_proactive_port,
};
use nm_monitor::snapshot::{join, BtrfsSnapshot, OvsctlInterceptor, OvsdbInterceptor};

const ROUTE: &str = "default via 192.168.1.1 dev eth0 proto dhcp metric 100";
const ADDR: &str = "2: eth0    inet 192.168.1.50/24 brd 192.168.1.255 scope global eth0";

fn network_error(r: Result<nm_monitor::atomic_setup::UplinkConfig, Error>) -> String {
    match r {
        Err(Error::Network(m)) => m,
        _ => panic!("expected a network error"),
    }
}

#[test]
fn uplink_is_read_from_route_and_address() {
    let u = uplink_from_outputs(ROUTE, ADDR, vec!["1.1.1.1".to_string()]).ok().unwrap();
    assert_eq!(u.interface, "eth0");
    assert_eq!(u.ip, "192.168.1.50");
    assert_eq!(u.prefix, 24);
    assert_eq!(u.gateway, "192.168.1.1");
    assert_eq!(u.dns_servers, vec!["1.1.1.1"]);
}

#[test]
fn uplink_errors_name_the_missing_piece() {
    assert_eq!(network_error(uplink_from_outputs("default via x", ADDR, vec![])), "Could not find uplink interface");
    assert_eq!(network_error(uplink_from_outputs(ROUTE, "2: eth0 inet", vec![])), "Could not find IP address");
    assert_eq!(network_error(uplink_from_outputs(ROUTE, "inet 10.0.0.1/300", vec![])), "Invalid prefix length");
    assert_eq!(network_error(uplink_from_outputs(ROUTE, "inet 10.0.0.1/", vec![])), "Invalid prefix length");
}

#[test]
fn dns_servers_or_fallback() {
    let resolv = "# generated\nnameserver 9.9.9.9\n  nameserver 149.112.112.112 \nnameserver\nsearch lan\n";
    assert_eq!(dns_servers_from(resolv), vec!["9.9.9.9", "149.112.112.112"]);
    assert_eq!(dns_servers_from("search lan\n"), vec!["8.8.8.8", "8.8.4.4"]);
}

#[test]
fn handoff_files() {
    let u = uplink_from_outputs(ROUTE, ADDR, vec!["9.9.9.9".to_string(), "1.1.1.1".to_string()]).ok().unwrap();
    assert_eq!(
        uplink_network_text(&u),
        "# Uplink interface - attached to ovsbr0\n# IP configuration moves to bridge\n[Match]\nName=eth0\n\n[Network]\nBridge=ovsbr0\nIgnoreCarrierLoss=yes\n"
    );
    assert_eq!(
        bridge_network_text(&u),
        [
            "# OVS Bridge 0 network configuration\n# IP moved from eth0\n[Match]\nName=ovsbr0\n\n[Network]\n",
            "Address=192.168.1.50/24\nGateway=192.168.1.1\nDNS=9.9.9.9\nDNS=1.1.1.1\n",
            "IgnoreCarrierLoss=yes\nConfigureWithoutCarrier=yes\n",
        ]
        .concat()
    );
    assert_eq!(
        bridge_netdev_text(true, "now"),
        "# OVS Bridge 0 - Primary bridge with uplink\n# Created: now\n[NetDev]\nName=ovsbr0\nKind=openvswitch\n"
    );
    assert_eq!(
        bridge_netdev_text(false, "now"),
        "# OVS Bridge 1 - Isolated bridge for containers\n# Created: now\n[NetDev]\nName=ovsbr1\nKind=openvswitch\n"
    );
}

fn show(a: &NmAction) -> String {
    match a {
        NmAction::Run { args, failure } => format!("run {} | {failure}", args.join(" ")),
        NmAction::DeleteIfListed(n) => format!("delete {n}"),
        NmAction::AddOrModify { name, .. } => format!("add-or-modify {name}"),
        NmAction::RunOrMigrate { args, .. } => format!("run-or-migrate {}", args.join(" ")),
        NmAction::Validate(b) => format!("validate {b}"),
        NmAction::Try(args) => format!("try {}", args.join(" ")),
        NmAction::DownDeleteIfListed(n) => format!("down-delete {n}"),
    }
}

#[test]
fn dynamic_port_names_and_plans() {
    assert_eq!(eth_conn_name("veth1"), "dyn-eth-veth1");
    assert_eq!(port_conn_name("veth1"), "dyn-port-veth1");
    let plan: Vec<String> = ensure_dynamic_port("ovsbr0", "veth1", false).iter().map(show).collect();
    assert_eq!(
        plan,
        vec![
            "delete dyn-port-veth1",
            "run conn add type ovs-port con-name dyn-port-veth1 ifname dyn-port-veth1 controller ovsbr0 | Failed to create OVS port dyn-port-veth1",
            "delete dyn-eth-veth1",
            "run conn add type ethernet con-name dyn-eth-veth1 ifname veth1 controller dyn-port-veth1 port-type ovs-port | Failed to create ethernet slave dyn-eth-veth1",
            "try -w 10 connection up dyn-eth-veth1",
        ]
    );
    assert_eq!(ensure_dynamic_port("ovsbr0", "veth1", true).len(), 0);
    let proactive: Vec<String> = ensure_proactive_port("ovsbr0", "veth2", false).iter().map(show).collect();
    assert_eq!(proactive[0], "delete ovs-port-veth2");
    assert_eq!(proactive[4], "try -w 10 connection up ovs-eth-veth2");
    let removal: Vec<String> = remove_dynamic_port("veth1").iter().map(show).collect();
    assert_eq!(removal, vec!["down-delete dyn-eth-veth1", "delete dyn-port-veth1"]);
    let removal: Vec<String> = remove_proactive_port("p", "e").iter().map(show).collect();
    assert_eq!(removal, vec!["down-delete e", "delete p"]);
}

#[test]
fn nmcli_listings() {
    assert_eq!(list_connection_names("ovs-bridge-ovsbr0\n\n  dyn-eth-veth1 \n"), vec!["ovs-bridge-ovsbr0", "dyn-eth-veth1"]);
    let active = "dyn-port-veth1:activated\ndyn-eth-veth1:activating\n";
    assert!(connection_active(active, "dyn-port-veth1"));
    assert!(!connection_active(active, "dyn-eth-veth1"));
    assert!(!connection_active(active, "other"));
}

#[test]
fn snapshot_paths_and_commands() {
    assert_eq!(join("/snap", "@x"), "/snap/@x");
    assert_eq!(join("/snap/", "@x"), "/snap/@x");
    assert_eq!(join("", "@x"), "@x");
    assert_eq!(join("/snap", "/abs"), "/abs");
    let m = BtrfsSnapshot::new("/tmp/test-snapshots".to_string());
    let p = m.plan_ephemeral("@current", 1234567890123456789);
    assert_eq!(p.snapshot_path, "/tmp/test-snapshots/@ephemeral-1234567890123456789");
    assert_eq!(
        p.args,
        vec!["subvolume", "snapshot", "-r", "/tmp/test-snapshots/@current", "/tmp/test-snapshots/@ephemeral-1234567890123456789"]
    );
    let g = BtrfsSnapshot::guard(p.snapshot_path.clone());
    assert_eq!(g.path(), p.snapshot_path);
    assert_eq!(g.delete_args(), vec!["subvolume", "delete", "/tmp/test-snapshots/@ephemeral-1234567890123456789"]);
}

#[test]
fn interceptor_paths_and_record() {
    let i = OvsdbInterceptor::new("/tmp/ovsdb-snapshots".to_string());
    assert_eq!(i.snapshot_manager.base_path, "/tmp/ovsdb-snapshots");
    assert_eq!(OvsdbInterceptor::source(), "@ovsdb-current");
    assert_eq!(OvsdbInterceptor::db_path("/s/@ephemeral-1"), "/s/@ephemeral-1/conf.db");
    assert_eq!(OvsdbInterceptor::transform_ovsdb("anything"), "{\"bridges\":[],\"interfaces\":[],\"ports\":[]}");
    assert_eq!(OvsctlInterceptor::output_path("/s/@ephemeral-1"), "/s/@ephemeral-1/output.txt");
    assert_eq!(OvsctlInterceptor::new("/b".to_string()).snapshot_manager.base_path, "/b");
}

#[test]
fn container_ids_from_interface_names() {
    assert_eq!(container_short_name_from_ifname("veth9000i1"), Some("9000".to_string()));
    assert_eq!(container_short_name_from_ifname("vid123"), Some("123".to_string()));
    assert_eq!(container_short_name_from_ifname("vi42x"), Some("42".to_string()));
    assert_eq!(container_short_name_from_ifname("tap100i0"), Some("100".to_string()));
    assert_eq!(container_short_name_from_ifname("77abc"), Some("77".to_string()));
    assert_eq!(container_short_name_from_ifname("eth0"), None);
    assert_eq!(container_short_name_from_ifname("veth"), None);
}

#[test]
fn metrics_start_at_zero() {
    let cfg = nm_monitor::config::Config::default();
    let enabled = cfg.metrics.enabled;
    let mut m = nm_monitor::metrics::MetricsManager::new(cfg).ok().unwrap();
    let v = m.get_metrics();
    assert!(!v.bridge_active);
    assert_eq!((v.ports_count, v.connections_count, v.errors_count, v.uptime_seconds, v.last_update), (0, 0, 0, 0, 0));
    m.update_bridge_status(true);
    assert!(m.get_metrics().bridge_active);
    m.increment_errors();
    m.increment_errors();
    let v = m.get_metrics();
    assert_eq!(v.errors_count, 2);
    assert!(v.bridge_active);
    assert_eq!((v.ports_count, v.connections_count, v.uptime_seconds, v.last_update), (0, 0, 0, 0));
    m.update_bridge_status(false);
    assert!(!m.get_metrics().bridge_active);
    assert_eq!(m.get_metrics().errors_count, 2);
    assert_eq!(m.collection_enabled(), enabled);
    let mut cfg = nm_monitor::config::Config::default();
    cfg.metrics.enabled = !enabled;
    let flipped = nm_monitor::metrics::MetricsManager::new(cfg).ok().unwrap();
    assert_eq!(flipped.collection_enabled(), !enabled);
}

#[test]
fn keyed_lists_replace_in_place_and_append_new_keys() {
    let mut v: Vec<(String, u32)> = vec![];
    nm_monitor::keyed::upsert(&mut v, "a".to_string(), 1);
    nm_monitor::keyed::upsert(&mut v, "b".to_string(), 2);
    nm_monitor::keyed::upsert(&mut v, "a".to_string(), 3);
    assert_eq!(v, vec![("a".to_string(), 3), ("b".to_string(), 2)]);
    assert_eq!(nm_monitor::keyed::get_keyed(&v, "b"), Some(&2));
    assert_eq!(nm_monitor::keyed::get_keyed(&v, "c"), None);
}

#[test]
fn first_existing_candidate_is_chosen() {
    assert_eq!(nm_monitor::config::first_existing(&vec![false, true, true]), Some(1));
    assert_eq!(nm_monitor::config::first_existing(&vec![true, false]), Some(0));
    assert_eq!(nm_monitor::config::first_existing(&vec![false, false]), None);
    assert_eq!(nm_monitor::config::first_existing(&vec![]), None);
}
