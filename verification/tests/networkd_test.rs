use nm_monitor::error::Error;
use nm_monitor::json::Json;
use nm_monitor::networkd::{
    bridge_interfaces, bridge_present, get_bridge_interfaces, get_bridge_ports, ifindex_by_name, link_listed,
    link_object_path, links_from_json, list_network_units, network_interface_exists, network_state_from,
    LinkInfo, LinkSummary,
};

fn link(index: u32, name: &str) -> LinkInfo {
    LinkInfo { index, name: name.to_string(), operational_state: "routable".to_string() }
}

#[test]
fn link_listing_finds_names() {
    let links = vec![link(1, "lo"), link(2, "eth0")];
    assert!(link_listed(&links, "eth0"));
    assert!(!link_listed(&links, "eth1"));
    assert!(!link_listed(&vec![], "lo"));
}

#[test]
fn bridge_interfaces_keep_bridge_and_veth_names_in_order() {
    let links = vec![link(1, "lo"), link(2, "vmbr0"), link(3, "veth100i0"), link(4, "vmbr0-if"), link(5, "eth0")];
    assert_eq!(bridge_interfaces(&links, "vmbr0"), vec!["vmbr0", "veth100i0", "vmbr0-if"]);
    assert_eq!(bridge_interfaces(&links, "vmbr0-if-long"), vec!["veth100i0"]);
}

#[test]
fn networkd_queries_follow_the_client() {
    assert!(network_interface_exists("lo"));
    assert!(!network_interface_exists("eth0"));
    assert!(bridge_present("ovsbr0"));
    assert_eq!(get_bridge_ports("ovsbr0").ok().unwrap().len(), 0);
    assert_eq!(get_bridge_interfaces("lo").ok().unwrap(), vec!["lo"]);
    assert_eq!(get_bridge_interfaces("ovsbr0").ok().unwrap().len(), 0);
}

#[test]
fn link_paths_are_numbered() {
    assert_eq!(link_object_path(7), "/org/freedesktop/network1/link/_7");
    assert_eq!(link_object_path(0), "/org/freedesktop/network1/link/_0");
}

#[test]
fn network_state_keeps_index_name_and_operational_state() {
    let s = network_state_from(vec![(3, "eth0".to_string(), "ether".to_string(), "routable".to_string())]);
    assert_eq!(s.links.len(), 1);
    assert_eq!(s.links[0].index, 3);
    assert_eq!(s.links[0].name, "eth0");
    assert_eq!(s.links[0].operational_state, "routable");
}

#[test]
fn unit_names_are_second_words() {
    let out = "1 lo loopback carrier unmanaged\n2 eth0 ether routable configured\nbroken\n";
    assert_eq!(list_network_units(out), vec!["lo", "eth0"]);
}

#[test]
fn links_read_from_json_skip_nameless_entries() {
    let entry = |idx: &str, name: Option<&str>, state: Option<&str>| {
        let mut m = vec![("ifindex".to_string(), Json::Number(idx.to_string()))];
        if let Some(n) = name {
            m.push(("name".to_string(), Json::Str(n.to_string())));
        }
        if let Some(s) = state {
            m.push(("operational-state".to_string(), Json::Str(s.to_string())));
        }
        Json::Object(m)
    };
    let v = Json::Array(vec![entry("1", Some("lo"), Some("carrier")), entry("2", None, None), entry("3", Some("eth0"), None)]);
    let links = links_from_json(&v);
    assert_eq!(links.len(), 2);
    assert_eq!((links[0].index, links[0].name.as_str(), links[0].operational_state.as_str()), (1, "lo", "carrier"));
    assert_eq!((links[1].index, links[1].name.as_str(), links[1].operational_state.as_str()), (3, "eth0", "unknown"));
    assert_eq!(links_from_json(&Json::Null).len(), 0);
}

#[test]
fn ifindex_lookup_or_refusal() {
    let links = vec![
        LinkSummary { index: 4, name: "eth0".to_string(), operational_state: "routable".to_string() },
        LinkSummary { index: 9, name: "eth0".to_string(), operational_state: "off".to_string() },
    ];
    assert!(matches!(ifindex_by_name(&links, "eth0"), Ok(4)));
    match ifindex_by_name(&links, "wlan0") {
        Err(Error::Network(m)) => assert_eq!(m, "Interface 'wlan0' not managed by networkd"),
        _ => panic!("expected a refusal"),
    }
}
