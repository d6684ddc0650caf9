//! Netmaker nodes among the Docker containers: how they are recognised and what role,
//! network and node id their labels and environment give them.
use vstd::prelude::*;
use vstd::string::*;
use crate::text::{owned, texts, distinct_texts, is_distinct_of};
use crate::interfaces::find;
use crate::lines::{starts, starts_with_text};
use crate::error::Error;
use crate::docker::{ContainerState, ContainerConfig, DockerStatePlugin, pairs, lookup, key_pos, lookup_pair, contains_text};

verus! {

/// Netmaker filters.
pub struct NetmakerFilters {
    pub name_pattern: Option<String>,
    pub netmaker_role: Option<String>,
    pub network_name: Option<String>,
    pub node_id: Option<String>,
    pub public_key_filter: Option<String>,
}

/// A WireGuard peer.
pub struct WireGuardPeer {
    pub public_key: String,
    pub allowed_ips: Vec<String>,
    pub endpoint: Option<String>,
    pub persistent_keepalive: Option<u32>,
    pub last_handshake: Option<String>,
}

/// A WireGuard interface.
pub struct WireGuardInterface {
    pub name: String,
    pub public_key: String,
    pub private_key: Option<String>,
    pub listen_port: u16,
    pub fwmark: Option<u32>,
}

/// Where the Netmaker API answers.
pub struct NetmakerAPIConfig {
    pub api_host: String,
    pub api_port: u16,
    pub base_url: String,
    pub auth_token: Option<String>,
}

/// The Netmaker state plugin, built on the Docker plugin.
pub struct NetmakerStatePlugin {
    pub docker_plugin: DockerStatePlugin,
}

/// A Netmaker node: the container and what Netmaker adds to it. No connectivity matrix is
/// collected (it would take probing the network), so the record has none.
pub struct NetmakerContainerConfig {
    pub base: ContainerConfig,
    pub netmaker_role: Option<String>,
    pub netmaker_network: Option<String>,
    pub node_id: Option<String>,
    pub public_key: Option<String>,
    pub private_key_path: Option<String>,
    pub interface_name: Option<String>,
    pub wireguard_peers: Option<Vec<WireGuardPeer>>,
    pub wireguard_interface: Option<WireGuardInterface>,
    pub netmaker_api_config: Option<NetmakerAPIConfig>,
}

/// Whether `s` contains `p`.
pub open spec fn holds_text(s: Seq<char>, p: Seq<char>) -> bool {
    find(s, p) is Some
}

/// Whether some value of the map contains `p`.
pub open spec fn some_value_has(m: Seq<(Seq<char>, Seq<char>)>, p: Seq<char>) -> bool {
    exists|i: int| 0 <= i < m.len() && holds_text(#[trigger] m[i].1, p)
}

/// Whether a container is a Netmaker node: a `netmaker.role` label, or a compose service
/// label together with `netmaker` in its name or in a label value; else `netmaker` or
/// `gravitl` in its image; else `netmaker` or `nm-` in its name.
pub open spec fn is_netmaker(c: ContainerConfig) -> bool {
    ||| (c.labels matches Some(l) && (key_pos(pairs(l@), "netmaker.role"@) is Some || (key_pos(
        pairs(l@),
        "com.docker.compose.service"@,
    ) is Some && (holds_text(c.name@, "netmaker"@) || some_value_has(pairs(l@), "netmaker"@)))))
    ||| holds_text(c.image@, "netmaker"@)
    ||| holds_text(c.image@, "gravitl"@)
    ||| holds_text(c.name@, "netmaker"@)
    ||| holds_text(c.name@, "nm-"@)
    ||| starts(c.name@, "netmaker-"@)
}

/// The role a compose service name gives.
pub open spec fn service_role(s: Seq<char>) -> Option<Seq<char>> {
    if s == "netmaker"@ || s == "netmaker-server"@ {
        Some("server"@)
    } else if s == "netmaker-ui"@ {
        Some("ui"@)
    } else if holds_text(s, "client"@) {
        Some("client"@)
    } else if holds_text(s, "ingress"@) {
        Some("ingress"@)
    } else if holds_text(s, "egress"@) {
        Some("egress"@)
    } else {
        None
    }
}

/// A container's Netmaker role: its `netmaker.role` label, else what its compose service
/// says, else `server` or `client` from its name.
pub open spec fn role_of(c: ContainerConfig) -> Option<Seq<char>> {
    let by_name = if holds_text(c.name@, "server"@) || holds_text(c.name@, "netmaker"@) {
        Some("server"@)
    } else if holds_text(c.name@, "client"@) {
        Some("client"@)
    } else {
        None
    };
    match c.labels {
        Some(l) => match lookup(pairs(l@), "netmaker.role"@) {
            Some(r) => Some(r),
            None => match lookup(pairs(l@), "com.docker.compose.service"@) {
                Some(s) => service_role(s),
                None => by_name,
            },
        },
        None => by_name,
    }
}

/// A value from the labels under `label`, else from the environment under `env`.
pub open spec fn label_or_env(c: ContainerConfig, label: Seq<char>, env: Seq<char>) -> Option<Seq<char>> {
    let from_env = match c.environment {
        Some(e) => lookup(pairs(e@), env),
        None => None,
    };
    match c.labels {
        Some(l) => match lookup(pairs(l@), label) {
            Some(v) => Some(v),
            None => from_env,
        },
        None => from_env,
    }
}

/// The view of an optional string.
pub open spec fn opt_view(o: Option<String>) -> Option<Seq<char>> {
    match o {
        Some(s) => Some(s@),
        None => None,
    }
}

/// What `enrich_netmaker_container` makes of container `c`: its role, network and node id;
/// for a node with a role, its WireGuard interface (with the interface's name and key) and
/// peers; its API configuration; and no private key path.
pub open spec fn enriched(c: ContainerConfig, r: NetmakerContainerConfig) -> bool {
    let node = role_of(c) is Some;
    &&& r.base == c
    &&& opt_view(r.netmaker_role) == role_of(c)
    &&& opt_view(r.netmaker_network) == label_or_env(c, "netmaker.network"@, "NETMAKER_NETWORK"@)
    &&& opt_view(r.node_id) == label_or_env(c, "netmaker.node_id"@, "NODE_ID"@)
    &&& r.private_key_path is None
    &&& (node <==> r.wireguard_interface is Some)
    &&& (node <==> r.wireguard_peers is Some)
    &&& (r.wireguard_interface matches Some(w) ==> (w.name@ == "netmaker"@ && w.public_key@ == "placeholder_public_key"@
        && w.private_key is None && w.listen_port == 51821 && w.fwmark is None))
    &&& (r.wireguard_peers matches Some(p) ==> p@.len() == 0)
    &&& opt_view(r.public_key) == (if node { Some("placeholder_public_key"@) } else { None::<Seq<char>> })
    &&& opt_view(r.interface_name) == (if node { Some("netmaker"@) } else { None::<Seq<char>> })
    &&& (r.netmaker_api_config matches Some(a) && a.api_host@ == "localhost"@ && a.api_port == 8081 && a.base_url@
        == "/api"@ && a.auth_token is None)
}

/// The Netmaker nodes among the containers, in order.
pub open spec fn netmaker_only(cs: Seq<ContainerConfig>) -> Seq<ContainerConfig>
    decreases cs.len(),
{
    if cs.len() == 0 {
        Seq::empty()
    } else if is_netmaker(cs.last()) {
        netmaker_only(cs.drop_last()).push(cs.last())
    } else {
        netmaker_only(cs.drop_last())
    }
}

/// What a network analysis counts of the nodes: the nodes with a role, those of them
/// running, and the networks they name.
pub struct NodeSummary {
    pub total_nodes: u32,
    pub connected_nodes: u32,
    /// Each network once, in order of first appearance.
    pub networks: Vec<String>,
}

/// The number of nodes with a role.
pub open spec fn role_count(cs: Seq<NetmakerContainerConfig>) -> nat
    decreases cs.len(),
{
    if cs.len() == 0 {
        0
    } else {
        role_count(cs.drop_last()) + if cs.last().netmaker_role is Some { 1nat } else { 0nat }
    }
}

/// The number of running nodes with a role.
pub open spec fn running_count(cs: Seq<NetmakerContainerConfig>) -> nat
    decreases cs.len(),
{
    if cs.len() == 0 {
        0
    } else {
        running_count(cs.drop_last()) + if cs.last().netmaker_role is Some && cs.last().base.state
            == ContainerState::Running {
            1nat
        } else {
            0nat
        }
    }
}

/// The networks named by nodes with a role, in order, repeats kept.
pub open spec fn node_networks(cs: Seq<NetmakerContainerConfig>) -> Seq<Seq<char>>
    decreases cs.len(),
{
    if cs.len() == 0 {
        Seq::empty()
    } else {
        let rest = node_networks(cs.drop_last());
        match (cs.last().netmaker_role, cs.last().netmaker_network) {
            (Some(_), Some(n)) => rest.push(n@),
            _ => rest,
        }
    }
}

fn value_has(m: &Vec<(String, String)>, p: &str) -> (r: bool)
    ensures
        r == some_value_has(pairs(m@), p@),
{
    let mut i: usize = 0;
    while i < m.len()
        invariant
            i <= m@.len(),
            forall|j: int| 0 <= j < i ==> !holds_text(#[trigger] pairs(m@)[j].1, p@),
        decreases m@.len() - i,
    {
        if contains_text(m[i].1.as_str(), p) {
            assert(pairs(m@)[i as int].1 == m@[i as int].1@);
            return true;
        }
        assert(pairs(m@)[i as int].1 == m@[i as int].1@);
        i = i + 1;
    }
    false
}

fn label_or_env_exec(c: &ContainerConfig, label: &str, env: &str) -> (r: Option<String>)
    ensures
        opt_view(r) == label_or_env(*c, label@, env@),
{
    match &c.labels {
        Some(l) => {
            match lookup_pair(l, label) {
                Some(v) => {
                    return Some(v.clone());
                },
                None => {},
            }
        },
        None => {},
    }
    match &c.environment {
        Some(e) => match lookup_pair(e, env) {
            Some(v) => Some(v.clone()),
            None => None,
        },
        None => None,
    }
}

impl NetmakerStatePlugin {
    /// A plugin over the default Docker plugin.
    pub fn new() -> (r: NetmakerStatePlugin)
        ensures
            r.docker_plugin.docker_socket@ == "/var/run/docker.sock"@,
    {
        NetmakerStatePlugin { docker_plugin: DockerStatePlugin::new() }
    }

    /// Whether a container is a Netmaker node.
    pub fn is_netmaker_container(&self, container: &ContainerConfig) -> (r: bool)
        ensures
            r == is_netmaker(*container),
    {
        match &container.labels {
            Some(l) => {
                let role = lookup_pair(l, "netmaker.role").is_some();
                let service = lookup_pair(l, "com.docker.compose.service").is_some();
                proof {
                    assert(lookup(pairs(l@), "netmaker.role"@) is Some <==> key_pos(pairs(l@), "netmaker.role"@) is Some);
                    assert(lookup(pairs(l@), "com.docker.compose.service"@) is Some <==> key_pos(
                        pairs(l@),
                        "com.docker.compose.service"@,
                    ) is Some);
                }
                if role || (service && (contains_text(container.name.as_str(), "netmaker") || value_has(l, "netmaker"))) {
                    return true;
                }
            },
            None => {},
        }
        contains_text(container.image.as_str(), "netmaker") || contains_text(container.image.as_str(), "gravitl")
            || contains_text(container.name.as_str(), "netmaker") || contains_text(container.name.as_str(), "nm-")
            || starts_with_text(container.name.as_str(), "netmaker-")
    }

    /// A container's Netmaker role.
    pub fn determine_netmaker_role(&self, container: &ContainerConfig) -> (r: Option<String>)
        ensures
            opt_view(r) == role_of(*container),
    {
        match &container.labels {
            Some(l) => {
                match lookup_pair(l, "netmaker.role") {
                    Some(role) => {
                        return Some(role.clone());
                    },
                    None => {},
                }
                match lookup_pair(l, "com.docker.compose.service") {
                    Some(service) => {
                        let s = service.as_str();
                        if crate::text::same_text(s, "netmaker") || crate::text::same_text(s, "netmaker-server") {
                            return Some(owned("server"));
                        } else if crate::text::same_text(s, "netmaker-ui") {
                            return Some(owned("ui"));
                        } else if contains_text(s, "client") {
                            return Some(owned("client"));
                        } else if contains_text(s, "ingress") {
                            return Some(owned("ingress"));
                        } else if contains_text(s, "egress") {
                            return Some(owned("egress"));
                        } else {
                            return None;
                        }
                    },
                    None => {},
                }
            },
            None => {},
        }
        if contains_text(container.name.as_str(), "server") || contains_text(container.name.as_str(), "netmaker") {
            Some(owned("server"))
        } else if contains_text(container.name.as_str(), "client") {
            Some(owned("client"))
        } else {
            None
        }
    }

    /// A container's Netmaker network: its `netmaker.network` label, else its
    /// `NETMAKER_NETWORK` variable.
    pub fn extract_netmaker_network(&self, container: &ContainerConfig) -> (r: Option<String>)
        ensures
            opt_view(r) == label_or_env(*container, "netmaker.network"@, "NETMAKER_NETWORK"@),
    {
        label_or_env_exec(container, "netmaker.network", "NETMAKER_NETWORK")
    }

    /// A container's node id: its `netmaker.node_id` label, else its `NODE_ID` variable.
    pub fn extract_node_id(&self, container: &ContainerConfig) -> (r: Option<String>)
        ensures
            opt_view(r) == label_or_env(*container, "netmaker.node_id"@, "NODE_ID"@),
    {
        label_or_env_exec(container, "netmaker.node_id", "NODE_ID")
    }

    /// The WireGuard interface of a node (not inspected yet: the fixed `netmaker`
    /// interface on port 51821 with a placeholder key).
    pub fn get_wireguard_interface(&self, container: &ContainerConfig) -> (r: WireGuardInterface)
        ensures
            r.name@ == "netmaker"@,
            r.public_key@ == "placeholder_public_key"@,
            r.private_key is None,
            r.listen_port == 51821,
            r.fwmark is None,
    {
        WireGuardInterface {
            name: owned("netmaker"),
            public_key: owned("placeholder_public_key"),
            private_key: None,
            listen_port: 51821,
            fwmark: None,
        }
    }

    /// The WireGuard peers of a node (not inspected yet: none).
    pub fn get_wireguard_peers(&self, container: &ContainerConfig) -> (r: Vec<WireGuardPeer>)
        ensures
            r@.len() == 0,
    {
        Vec::new()
    }

    /// The API configuration of a node (not inspected yet: `localhost:8081` under `/api`).
    pub fn extract_api_config(&self, container: &ContainerConfig) -> (r: NetmakerAPIConfig)
        ensures
            r.api_host@ == "localhost"@,
            r.api_port == 8081,
            r.base_url@ == "/api"@,
            r.auth_token is None,
    {
        NetmakerAPIConfig { api_host: owned("localhost"), api_port: 8081, base_url: owned("/api"), auth_token: None }
    }

    /// The container with what Netmaker adds to it (see `enriched`).
    pub fn enrich_netmaker_container(&self, container: ContainerConfig) -> (r: Result<NetmakerContainerConfig, Error>)
        ensures
            r matches Ok(n) && enriched(container, n),
    {
        let netmaker_role = self.determine_netmaker_role(&container);
        let netmaker_network = self.extract_netmaker_network(&container);
        let (wireguard_interface, wireguard_peers) = if netmaker_role.is_some() {
            (Some(self.get_wireguard_interface(&container)), Some(self.get_wireguard_peers(&container)))
        } else {
            (None, None)
        };
        let node_id = self.extract_node_id(&container);
        let public_key = match &wireguard_interface {
            Some(w) => Some(w.public_key.clone()),
            None => None,
        };
        let interface_name = match &wireguard_interface {
            Some(w) => Some(w.name.clone()),
            None => None,
        };
        let netmaker_api_config = Some(self.extract_api_config(&container));
        Ok(NetmakerContainerConfig {
            base: container,
            netmaker_role,
            netmaker_network,
            node_id,
            public_key,
            private_key_path: None,
            interface_name,
            wireguard_peers,
            wireguard_interface,
            netmaker_api_config,
        })
    }

    /// The Netmaker nodes among the containers, in order, each enriched.
    pub fn filter_netmaker_containers(&self, containers: Vec<ContainerConfig>) -> (r: Vec<NetmakerContainerConfig>)
        ensures
            r@.len() == netmaker_only(containers@).len(),
            forall|i: int| 0 <= i < r@.len() ==> enriched(netmaker_only(containers@)[i], #[trigger] r@[i]),
    {
        let ghost all = containers@;
        let mut rest = containers;
        let mut out: Vec<NetmakerContainerConfig> = Vec::new();
        let total = rest.len();
        let mut k: usize = 0;
        while rest.len() > 0
            invariant
                k + rest@.len() == all.len(),
                all.len() == total,
                rest@ == all.subrange(k as int, all.len() as int),
                out@.len() == netmaker_only(all.subrange(0, k as int)).len(),
                forall|i: int| 0 <= i < out@.len() ==> enriched(netmaker_only(all.subrange(0, k as int))[i], #[trigger] out@[i]),
            decreases rest@.len(),
        {
            let c = rest.remove(0);
            proof {
                assert(all.subrange(0, k + 1).drop_last() =~= all.subrange(0, k as int));
                assert(all.subrange(0, k + 1).last() == c);
                assert(rest@ =~= all.subrange(k + 1, all.len() as int));
            }
            if self.is_netmaker_container(&c) {
                match self.enrich_netmaker_container(c) {
                    Ok(n) => {
                        out.push(n);
                    },
                    Err(_) => {},
                }
            }
            k = k + 1;
        }
        assert(all.subrange(0, k as int) =~= all);
        out
    }

    /// The counts of a network analysis over the nodes.
    pub fn summarize_nodes(&self, containers: &Vec<NetmakerContainerConfig>) -> (r: NodeSummary)
        requires
            containers@.len() < u32::MAX,
        ensures
            r.total_nodes == role_count(containers@),
            r.connected_nodes == running_count(containers@),
            is_distinct_of(r.networks@, node_networks(containers@)),
    {
        let mut total: u32 = 0;
        let mut connected: u32 = 0;
        let mut nets: Vec<String> = Vec::new();
        let mut i: usize = 0;
        while i < containers.len()
            invariant
                i <= containers@.len(),
                containers@.len() < u32::MAX,
                total == role_count(containers@.subrange(0, i as int)),
                connected == running_count(containers@.subrange(0, i as int)),
                texts(nets@) == node_networks(containers@.subrange(0, i as int)),
                connected <= total <= i,
                nets@.len() <= i,
            decreases containers@.len() - i,
        {
            let ghost pre = containers@.subrange(0, i as int);
            let ghost post = containers@.subrange(0, i + 1);
            assert(post.drop_last() =~= pre);
            assert(post.last() == containers@[i as int]);
            let c = &containers[i];
            if c.netmaker_role.is_some() {
                total = total + 1;
                if c.base.state == ContainerState::Running {
                    connected = connected + 1;
                }
                match &c.netmaker_network {
                    Some(n) => {
                        let ghost before = nets@;
                        nets.push(n.clone());
                        assert(texts(nets@) =~= texts(before).push(n@));
                    },
                    None => {},
                }
            }
            i = i + 1;
        }
        assert(containers@.subrange(0, i as int) =~= containers@);
        NodeSummary { total_nodes: total, connected_nodes: connected, networks: distinct_texts(&nets) }
    }
}

} // verus!
