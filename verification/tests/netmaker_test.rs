use nm_monitor::docker::{ContainerConfig, ContainerState};
use nm_monitor::netmaker::NetmakerStatePlugin;

fn container(name: &str, image: &str, labels: Option<Vec<(&str, &str)>>, env: Option<Vec<(&str, &str)>>) -> ContainerConfig {
    let pairs = |v: Vec<(&str, &str)>| v.into_iter().map(|(k, x)| (k.to_string(), x.to_string())).collect::<Vec<_>>();
    ContainerConfig {
        id: Some("abc".to_string()),
        name: name.to_string(),
        image: image.to_string(),
        status: "Up".to_string(),
        state: ContainerState::Running,
        networks: None,
        ports: None,
        labels: labels.map(pairs),
        environment: env.map(pairs),
        volumes: None,
        restart_policy: None,
        health_check: None,
        properties: None,
        property_schema: None,
    }
}

#[test]
fn recognises_nodes_and_their_roles() {
    let p = NetmakerStatePlugin::new();
    assert!(p.is_netmaker_container(&container("x", "gravitl/netmaker:latest", None, None)));
    assert!(p.is_netmaker_container(&container("nm-client", "alpine", None, None)));
    assert!(p.is_netmaker_container(&container("x", "alpine", Some(vec![("netmaker.role", "egress")]), None)));
    assert!(!p.is_netmaker_container(&container("web", "nginx", Some(vec![("com.docker.compose.service", "web")]), None)));
    assert_eq!(p.determine_netmaker_role(&container("x", "i", Some(vec![("netmaker.role", "ingress")]), None)), Some("ingress".to_string()));
    assert_eq!(
        p.determine_netmaker_role(&container("x", "i", Some(vec![("com.docker.compose.service", "netmaker-ui")]), None)),
        Some("ui".to_string())
    );
    assert_eq!(p.determine_netmaker_role(&container("my-server", "i", None, None)), Some("server".to_string()));
    assert_eq!(p.determine_netmaker_role(&container("web", "i", None, None)), None);
}

#[test]
fn network_and_node_id_from_labels_then_environment() {
    let p = NetmakerStatePlugin::new();
    let c = container("nm-1", "i", Some(vec![("netmaker.network", "mesh")]), Some(vec![("NETMAKER_NETWORK", "other"), ("NODE_ID", "n7")]));
    assert_eq!(p.extract_netmaker_network(&c), Some("mesh".to_string()));
    assert_eq!(p.extract_node_id(&c), Some("n7".to_string()));
}

#[test]
fn enriched_nodes_carry_wireguard_details() {
    let p = NetmakerStatePlugin::new();
    let node = p.enrich_netmaker_container(container("netmaker-server", "gravitl/netmaker", None, None)).ok().unwrap();
    assert_eq!(node.base.name, "netmaker-server");
    assert_eq!(node.netmaker_role, Some("server".to_string()));
    assert_eq!(node.public_key, Some("placeholder_public_key".to_string()));
    assert_eq!(node.interface_name, Some("netmaker".to_string()));
    assert_eq!(node.wireguard_interface.as_ref().unwrap().listen_port, 51821);
    assert_eq!(node.wireguard_peers.as_ref().unwrap().len(), 0);
    assert!(node.private_key_path.is_none());
    assert_eq!(node.netmaker_api_config.as_ref().unwrap().api_port, 8081);
    let plain = p.enrich_netmaker_container(container("nm-x", "i", None, None)).ok().unwrap();
    assert_eq!(plain.netmaker_role, None);
    assert!(plain.wireguard_interface.is_none() && plain.wireguard_peers.is_none());
    assert!(plain.public_key.is_none() && plain.interface_name.is_none());
}

#[test]
fn filtering_keeps_nodes_in_order() {
    let p = NetmakerStatePlugin::new();
    let cs = vec![
        container("web", "nginx", None, None),
        container("netmaker-client-1", "i", None, None),
        container("db", "postgres", None, None),
        container("x", "gravitl/netclient", None, None),
    ];
    let nodes = p.filter_netmaker_containers(cs);
    assert_eq!(nodes.iter().map(|n| n.base.name.as_str()).collect::<Vec<_>>(), vec!["netmaker-client-1", "x"]);
    assert_eq!(nodes[0].netmaker_role, Some("server".to_string()));
}

#[test]
fn node_summary_counts_roles_running_nodes_and_networks() {
    let p = NetmakerStatePlugin::new();
    let mut stopped = container("netmaker-b", "i", Some(vec![("netmaker.network", "mesh")]), None);
    stopped.state = ContainerState::Exited;
    let cs = vec![
        container("netmaker-a", "i", Some(vec![("netmaker.network", "mesh")]), None),
        stopped,
        container("netmaker-c", "i", None, Some(vec![("NETMAKER_NETWORK", "edge")])),
        container("nm-x", "i", Some(vec![("netmaker.network", "hidden")]), None),
    ];
    let nodes = p.filter_netmaker_containers(cs);
    assert_eq!(nodes.len(), 4);
    let s = p.summarize_nodes(&nodes);
    assert_eq!(s.total_nodes, 3);
    assert_eq!(s.connected_nodes, 2);
    assert_eq!(s.networks, vec!["mesh", "edge"]);
}
