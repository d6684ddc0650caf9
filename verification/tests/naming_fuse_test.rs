use nm_monitor::fuse::{
    binding_synchronized, mount_point_of, proxmox_config, sync_paths_of, synchronization_from, validate_bridge_synchronization,
    vm_dir_of, HashFootprint, InterfaceBinding,
};
use nm_monitor::naming::{container_eth_name, render_template, replace_all, sanitize15};

#[test]
fn eth_names_map_and_cut_the_container_name() {
    assert_eq!(container_eth_name("web", 12), "web_eth12");
    assert_eq!(container_eth_name("My-Container.1", 0), "my_cont_36_eth0");
    assert_eq!(container_eth_name("", 65535), "_eth65535");
    let long = container_eth_name("ÄÖÜ-very-long-container-name", 7);
    assert_eq!(long, "____ver_ca_eth7");
    assert!(long.len() <= 15);
    assert_eq!(container_eth_name("exactlyten", 0), "exactlyten_eth0");
}

#[test]
fn cut_names_stay_apart() {
    let a = container_eth_name("container-alpha", 0);
    let b = container_eth_name("container-beta", 0);
    assert_eq!(a, "contain_26_eth0");
    assert_eq!(b, "contain_31_eth0");
    assert_ne!(a, b);
}

#[test]
fn templates_fill_container_and_index() {
    assert_eq!(render_template("vi{container}", "100", 0), "vi100");
    assert_eq!(render_template("veth-{container}-{index}", "Web App", 3), "veth-web_app-3");
    assert_eq!(replace_all("a{x}b{x}", "{x}", "Y"), "aYbY");
    assert_eq!(replace_all("{x", "{x}", "Y"), "{x");
}

#[test]
fn long_names_are_cut_with_a_sha1_tag() {
    assert_eq!(sanitize15("averyveryverylonginterfacename"), "averyveryvery81");
    assert_eq!(sanitize15("vi-container-long-name!!"), "vi-container-1d");
    assert_eq!(render_template("{container}", "averyveryverylonginterfacename", 0), "averyveryvery81");
    assert_eq!(sanitize15("exactly15chars_"), "exactly15chars_");
    assert_eq!(sanitize15("AB"), "ab");
}

fn sealed() -> InterfaceBinding {
    InterfaceBinding::new_sealed(
        "veth100i0",
        "vi100",
        100,
        "ct100",
        "vmbr0",
        "2024-01-01T00:00:00Z".to_string(),
        "2024-01-02T00:00:00Z".to_string(),
    )
}

#[test]
fn sealed_binding_carries_its_footprint() {
    let b = sealed();
    assert_eq!(b.bind_mount, "/var/lib/ovs-port-agent/fuse/vi100");
    assert!(b.ledger_block_hash.is_none());
    assert_eq!(b.footprint.config_hash, "3a189b6b12397d4a872968d1afba208b349fc9c85f7f103dbf52e34a8e67270b");
    assert_eq!(b.footprint.state_hash, "c425bd404d70b7d833d3bc359a1ad51a0eea8b4934fdb3c7e465e8ee5fa4ce1c");
    assert_eq!(b.fingerprint(), "22bca099e2d0239d553f28abbe0f0e1c90e3eaca12dbc0f1452861911d5a8ebf");
    assert_eq!(b.footprint.created_at, "2024-01-02T00:00:00Z");
    assert_eq!(b.footprint.algorithm, "SHA-256");
    assert_eq!(
        b.footprint.hashed_fields,
        vec!["bind_mount", "bridge", "container_id", "created_at", "footprint", "ledger_block_hash", "ovs_interface", "proxmox_veth", "vmid"]
    );
}

#[test]
fn integrity_check_detects_changes() {
    let mut b = sealed();
    assert!(b.verify_integrity().ok().unwrap());
    b.ledger_block_hash = Some("abc".to_string());
    assert!(b.verify_integrity().ok().unwrap());
    b.bridge = "vmbr1".to_string();
    assert!(!b.verify_integrity().ok().unwrap());
}

#[test]
fn binding_paths_and_proxmox_file() {
    let b = sealed();
    assert_eq!(mount_point_of("vi100"), "/var/lib/ovs-port-agent/fuse/vi100");
    assert_eq!(vm_dir_of(100), "/var/lib/ovs-port-agent/proxmox/vm-100");
    assert_eq!(
        sync_paths_of("vi100", &b),
        vec![
            "/sys/class/net/vi100",
            "/proc/net/veth/veth100i0",
            "/var/lib/ovs-port-agent/fuse/vi100",
            "/var/lib/ovs-port-agent/proxmox/vm-100/vi100",
        ]
    );
    let expected = [
        "# Proxmox VE VM 100 Network Interface Configuration\n",
        "# Generated by ovs-port-agent\n",
        "[interface.vi100]\n",
        "type: veth\n",
        "bridge: vmbr0\n",
        "container: ct100\n",
        "proxmox-veth: veth100i0\n",
        "ovs-interface: vi100\n",
        "created: 2024-01-01T00:00:00Z\n",
    ]
    .concat();
    assert_eq!(proxmox_config(&b), expected);
}

#[test]
fn synchronization_needs_all_four_paths() {
    assert!(binding_synchronized(&vec![true, true, true, true]));
    assert!(!binding_synchronized(&vec![true, false, true, true]));
    assert!(!binding_synchronized(&vec![true, true, true, false]));
    let names = vec!["vi100".to_string(), "vi101".to_string()];
    let answers = vec![vec![true, true, true, true], vec![true, true, false, true]];
    assert_eq!(synchronization_from(&names, &answers), vec![("vi100".to_string(), true), ("vi101".to_string(), false)]);
}

#[test]
fn synchronization_lists_bindings_on_the_bridge() {
    let b = sealed();
    let mut other = sealed();
    other.bridge = "vmbr9".to_string();
    let bindings = vec![("vi100".to_string(), b), ("vi200".to_string(), other)];
    let report = validate_bridge_synchronization(&bindings, "vmbr0").ok().unwrap();
    assert_eq!(report.len(), 1);
    assert_eq!(report[0].0, "vi100");
    // a test machine has no such link, so the binding is not synchronized
    assert!(!report[0].1);
}

#[test]
fn footprint_made_by_from_config_passes_the_integrity_check() {
    let bare = || InterfaceBinding {
        proxmox_veth: "veth7i0".to_string(),
        ovs_interface: "vi7".to_string(),
        vmid: 7,
        container_id: "ct7".to_string(),
        bridge: "ovsbr0".to_string(),
        created_at: "2024-05-05T00:00:00Z".to_string(),
        bind_mount: "/mnt/vi7".to_string(),
        footprint: HashFootprint::default(),
        ledger_block_hash: None,
    };
    let footprint = HashFootprint::from_config(&bare(), "2024-05-06T00:00:00Z".to_string()).ok().unwrap();
    let mut b = bare();
    b.footprint = footprint;
    assert!(b.verify_integrity().ok().unwrap());
    b.ledger_block_hash = Some("0abc".to_string());
    assert!(b.verify_integrity().ok().unwrap());
    b.vmid = 8;
    assert!(!b.verify_integrity().ok().unwrap());
}
