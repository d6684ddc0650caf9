//! The OVSDB D-Bus wrapper: `ovs-vsctl` run against a read-only btrfs snapshot of the
//! database, with the snapshot names, commands and replies that involves.
use vstd::prelude::*;
use vstd::string::*;
use crate::text::{owned, push_str, push_decimal, dec, texts};
use crate::snapshot::push_decimal_u128;
use crate::lines::lines;
use crate::nmcli_dyn::{connection_names, list_connection_names};

verus! {

/// Where the OVS database lives.
pub open spec fn ovsdb_base() -> Seq<char> {
    "/var/lib/openvswitch"@
}

/// Where the snapshots go.
pub open spec fn snapshot_dir() -> Seq<char> {
    "/var/lib/ovsdb/snapshots"@
}

/// Runs `ovs-vsctl` through snapshots of the OVS database.
pub struct OvsdbWrapper {
    pub base_path: String,
}

/// The snapshot taken by process `pid` at `timestamp` (nanoseconds).
pub open spec fn snapshot_path(pid: u32, timestamp: u128) -> Seq<char> {
    snapshot_dir() + "/"@ + "ovsdb-snap-"@ + dec(pid as nat) + "-"@ + dec(timestamp as nat)
}

impl OvsdbWrapper {
    /// A wrapper over `/var/lib/openvswitch`.
    pub fn new() -> (r: OvsdbWrapper)
        ensures
            r.base_path@ == ovsdb_base(),
    {
        OvsdbWrapper { base_path: owned("/var/lib/openvswitch") }
    }

    /// The path of the snapshot taken by process `pid` at `timestamp`.
    pub fn snapshot_path(pid: u32, timestamp: u128) -> (r: String)
        ensures
            r@ == snapshot_path(pid, timestamp),
    {
        let mut p = owned("/var/lib/ovsdb/snapshots");
        push_str(&mut p, "/");
        push_str(&mut p, "ovsdb-snap-");
        push_decimal(&mut p, pid as u64);
        push_str(&mut p, "-");
        push_decimal_u128(&mut p, timestamp);
        p
    }

    /// The `btrfs` arguments that take the read-only snapshot at `path`.
    pub fn snapshot_args(&self, path: &str) -> (r: Vec<String>)
        ensures
            texts(r@) == seq!["subvolume"@, "snapshot"@, "-r"@, self.base_path@, path@],
    {
        let mut r: Vec<String> = Vec::new();
        r.push(owned("subvolume"));
        r.push(owned("snapshot"));
        r.push(owned("-r"));
        r.push(self.base_path.clone());
        r.push(owned(path));
        assert(texts(r@) =~= seq!["subvolume"@, "snapshot"@, "-r"@, self.base_path@, path@]);
        r
    }

    /// The `ovs-vsctl` arguments that create a bridge.
    pub fn create_bridge_args(bridge_name: &str) -> (r: Vec<String>)
        ensures
            texts(r@) == seq!["add-br"@, bridge_name@],
    {
        let mut r: Vec<String> = Vec::new();
        r.push(owned("add-br"));
        r.push(owned(bridge_name));
        assert(texts(r@) =~= seq!["add-br"@, bridge_name@]);
        r
    }

    /// The `ovs-vsctl` arguments that add a port.
    pub fn add_port_args(bridge_name: &str, port_name: &str) -> (r: Vec<String>)
        ensures
            texts(r@) == seq!["add-port"@, bridge_name@, port_name@],
    {
        let mut r: Vec<String> = Vec::new();
        r.push(owned("add-port"));
        r.push(owned(bridge_name));
        r.push(owned(port_name));
        assert(texts(r@) =~= seq!["add-port"@, bridge_name@, port_name@]);
        r
    }

    /// The `ovs-vsctl` arguments that delete a bridge.
    pub fn delete_bridge_args(bridge_name: &str) -> (r: Vec<String>)
        ensures
            texts(r@) == seq!["del-br"@, bridge_name@],
    {
        let mut r: Vec<String> = Vec::new();
        r.push(owned("del-br"));
        r.push(owned(bridge_name));
        assert(texts(r@) =~= seq!["del-br"@, bridge_name@]);
        r
    }

    /// The `ovs-vsctl` arguments that ask whether a bridge exists (it does when the
    /// command succeeds).
    pub fn bridge_exists_args(bridge_name: &str) -> (r: Vec<String>)
        ensures
            texts(r@) == seq!["br-exists"@, bridge_name@],
    {
        let mut r: Vec<String> = Vec::new();
        r.push(owned("br-exists"));
        r.push(owned(bridge_name));
        assert(texts(r@) =~= seq!["br-exists"@, bridge_name@]);
        r
    }

    /// The ports of `ovs-vsctl list-ports` output: its non-blank lines, trimmed.
    pub fn bridge_ports(output: &str) -> (r: Vec<String>)
        ensures
            texts(r@) == connection_names(lines(output@)),
    {
        list_connection_names(output)
    }
}

/// Serves the wrapper's operations on D-Bus.
pub struct OvsdbDBusInterface {
    pub wrapper: OvsdbWrapper,
}

impl OvsdbDBusInterface {
    /// The D-Bus face of a wrapper.
    pub fn new(wrapper: OvsdbWrapper) -> (r: OvsdbDBusInterface)
        ensures
            r.wrapper == wrapper,
    {
        OvsdbDBusInterface { wrapper }
    }

    /// The D-Bus error text of a failed operation (`what` is e.g. `create bridge`).
    pub fn failure_text(what: &str, error: &str) -> (r: String)
        ensures
            r@ == "Failed to "@ + what@ + ": "@ + error@,
    {
        let mut s = owned("Failed to ");
        push_str(&mut s, what);
        push_str(&mut s, ": ");
        push_str(&mut s, error);
        s
    }
}

/// The routes file the netcfg plugin keeps.
pub struct NetcfgStatePlugin {
    pub routes_file: String,
}

impl NetcfgStatePlugin {
    /// A plugin keeping `/etc/systemd/network/10-routes.network`.
    pub fn new() -> (r: NetcfgStatePlugin)
        ensures
            r.routes_file@ == "/etc/systemd/network/10-routes.network"@,
    {
        NetcfgStatePlugin { routes_file: owned("/etc/systemd/network/10-routes.network") }
    }
}

} // verus!
