use nm_monitor::interfaces::{block_markers, render_interfaces_block, replace_block, update_interfaces_text};

#[test]
fn markers_are_tagged_lines() {
    let (b, e) = block_markers("ovs-port-agent");
    assert_eq!(b, "# BEGIN ovs-port-agent\n");
    assert_eq!(e, "# END ovs-port-agent\n");
}

#[test]
fn replace_block_swaps_existing_block() {
    let content = "auto lo\n# BEGIN t\nold\n# END t\ntail\n";
    let r = replace_block(content, "# BEGIN t\n", "# END t\n", "# BEGIN t\nnew\n# END t\n");
    assert_eq!(r, "auto lo\n# BEGIN t\nnew\n# END t\ntail\n");
}

#[test]
fn replace_block_appends_without_block() {
    let r = replace_block("auto lo", "# BEGIN t\n", "# END t\n", "# BEGIN t\nx\n# END t\n");
    assert_eq!(r, "auto lo\n# BEGIN t\nx\n# END t\n");
    let r = replace_block("auto lo\n", "# BEGIN t\n", "# END t\n", "# BEGIN t\nx\n# END t\n");
    assert_eq!(r, "auto lo\n# BEGIN t\nx\n# END t\n");
    let r = replace_block("", "# BEGIN t\n", "# END t\n", "B");
    assert_eq!(r, "\nB");
}

#[test]
fn replace_block_appends_after_dangling_begin() {
    let content = "# BEGIN t\nstale\n";
    let r = replace_block(content, "# BEGIN t\n", "# END t\n", "# BEGIN t\nx\n# END t\n");
    assert_eq!(r, "# BEGIN t\nstale\n# BEGIN t\nx\n# END t\n");
}

#[test]
fn second_write_of_same_block_changes_nothing() {
    let blk = "# BEGIN t\nbody\n# END t\n";
    for content in ["", "auto lo\n", "auto lo", "a\n# BEGIN t\nold\n# END t\nz\n"] {
        let once = replace_block(content, "# BEGIN t\n", "# END t\n", blk);
        let twice = replace_block(&once, "# BEGIN t\n", "# END t\n", blk);
        assert_eq!(once, twice);
    }
}

#[test]
fn rendered_block_lists_bridge_uplink_and_ports() {
    let ports = vec!["veth1".to_string(), "veth2".to_string()];
    let r = render_interfaces_block("tag", &ports, "vmbr0", Some("eth0"));
    let expected = [
        "# BEGIN tag\n",
        "# Managed by tag. Do not edit.\n",
        "# This is for Proxmox GUI visibility only.\n",
        "# NetworkManager manages the actual state via D-Bus.\n\n",
        "auto vmbr0\nallow-ovs vmbr0\niface vmbr0 inet manual\n    ovs_type OVSBridge\n",
        "    ovs_ports eth0 veth1 veth2\n\n",
        "auto vmbr0-if\niface vmbr0-if inet manual\n    ovs_type OVSIntPort\n    ovs_bridge vmbr0\n\n",
        "iface eth0 inet manual\n    ovs_bridge vmbr0\n    ovs_type OVSPort\n\n",
        "auto veth1\niface veth1 inet manual\n    ovs_type OVSIntPort\n    ovs_bridge vmbr0\n\n",
        "auto veth2\niface veth2 inet manual\n    ovs_type OVSIntPort\n    ovs_bridge vmbr0\n\n",
        "# END tag\n",
    ]
    .concat();
    assert_eq!(r, expected);
}

#[test]
fn rendered_block_without_ports_says_so() {
    let r = render_interfaces_block("tag", &vec![], "vmbr0", None);
    assert!(!r.contains("ovs_ports"));
    assert!(r.contains("# No container OVS ports detected.\n# END tag\n"));
}

#[test]
fn update_text_is_stable_on_rewrite() {
    let ports = vec!["veth1".to_string()];
    let once = update_interfaces_text("auto lo\n", "tag", &ports, "vmbr0", None);
    assert!(once.starts_with("auto lo\n# BEGIN tag\n"));
    assert!(once.ends_with("# END tag\n"));
    let twice = update_interfaces_text(&once, "tag", &ports, "vmbr0", None);
    assert_eq!(once, twice);
}

#[test]
fn update_text_is_stable_with_hash_in_a_port_name() {
    let ports = vec!["a#b".to_string(), "veth2".to_string()];
    let once = update_interfaces_text("auto lo\n", "tag", &ports, "vmbr0", Some("eth0"));
    assert!(once.contains("a#b"));
    let twice = update_interfaces_text(&once, "tag", &ports, "vmbr0", Some("eth0"));
    assert_eq!(once, twice);
}
