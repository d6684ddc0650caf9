//! Docker containers as the state plugin sees them: the container schema, the readings of
//! `docker ps` and `docker inspect` output, and container filtering.
use vstd::prelude::*;
use vstd::string::*;
use crate::text::{owned, texts, same_text, chars_of};
use crate::lines::{split_on, trim, split_str_on, split_once_on, trim_char, split_char, trim_text, split_text, split_once_text, trim_char_text};
use crate::interfaces::{find, find_chars};
use crate::json::{Json, json_get, json_as_str, opt_as_str};
use crate::error::Error;

verus! {

/// Container filters.
pub struct ContainerFilters {
    pub name_pattern: Option<String>,
    pub label_filters: Option<Vec<(String, String)>>,
    pub status_filter: Option<String>,
    pub network_filter: Option<String>,
}

/// Container states.
#[derive(Clone, Copy, PartialEq, Eq, Structural)]
pub enum ContainerState {
    Created,
    Running,
    Paused,
    Restarting,
    Removing,
    Exited,
    Dead,
}

/// A container's attachment to a network.
pub struct NetworkConfig {
    pub ip_address: Option<String>,
    pub gateway: Option<String>,
    pub mac_address: Option<String>,
}

/// A published port.
pub struct PortConfig {
    pub host_port: String,
    pub container_port: String,
    pub protocol: String,
}

/// A mounted volume.
pub struct VolumeConfig {
    pub host_path: Option<String>,
    pub container_path: String,
    pub mode: String,
}

/// A health check.
pub struct HealthConfig {
    pub test: Vec<String>,
    pub interval: Option<String>,
    pub timeout: Option<String>,
    pub retries: Option<u32>,
    pub start_period: Option<String>,
}

/// One container.
pub struct ContainerConfig {
    pub id: Option<String>,
    pub name: String,
    pub image: String,
    pub status: String,
    pub state: ContainerState,
    /// Networks by name.
    pub networks: Option<Vec<(String, NetworkConfig)>>,
    pub ports: Option<Vec<PortConfig>>,
    /// Labels by key.
    pub labels: Option<Vec<(String, String)>>,
    /// Environment variables by name.
    pub environment: Option<Vec<(String, String)>>,
    pub volumes: Option<Vec<VolumeConfig>>,
    pub restart_policy: Option<String>,
    pub health_check: Option<HealthConfig>,
    /// Further properties found by introspection.
    pub properties: Option<Vec<(String, Json)>>,
    pub property_schema: Option<Vec<String>>,
}

/// The Docker state plugin.
pub struct DockerStatePlugin {
    pub docker_socket: String,
}

/// The views of key/value pairs.
pub open spec fn pairs(m: Seq<(String, String)>) -> Seq<(Seq<char>, Seq<char>)> {
    Seq::new(m.len(), |i: int| (m[i].0@, m[i].1@))
}

/// The position of the first pair with key `k`.
pub open spec fn key_pos(m: Seq<(Seq<char>, Seq<char>)>, k: Seq<char>) -> Option<int>
    decreases m.len(),
{
    if m.len() == 0 {
        None
    } else if m.last().0 == k && key_pos(m.drop_last(), k) is None {
        Some(m.len() - 1)
    } else {
        key_pos(m.drop_last(), k)
    }
}

/// A map with `k` set to `v`: the value replaced where `k` is, else the pair appended.
pub open spec fn put(m: Seq<(Seq<char>, Seq<char>)>, k: Seq<char>, v: Seq<char>) -> Seq<(Seq<char>, Seq<char>)> {
    match key_pos(m, k) {
        Some(i) => m.update(i, (k, v)),
        None => m.push((k, v)),
    }
}

proof fn lemma_key_pos(m: Seq<(Seq<char>, Seq<char>)>, k: Seq<char>)
    ensures
        match key_pos(m, k) {
            Some(i) => 0 <= i < m.len() && m[i].0 == k && forall|j: int| 0 <= j < i ==> #[trigger] m[j].0 != k,
            None => forall|j: int| 0 <= j < m.len() ==> #[trigger] m[j].0 != k,
        },
    decreases m.len(),
{
    if m.len() > 0 {
        lemma_key_pos(m.drop_last(), k);
        assert forall|j: int| 0 <= j < m.len() - 1 implies #[trigger] m[j] == m.drop_last()[j] by {}
    }
}

fn put_pair(m: &mut Vec<(String, String)>, k: String, v: String)
    ensures
        pairs(final(m)@) == put(pairs(old(m)@), k@, v@),
{
    let mut i: usize = 0;
    while i < m.len()
        invariant
            i <= m@.len(),
            m@ == old(m)@,
            forall|j: int| 0 <= j < i ==> #[trigger] m@[j].0@ != k@,
        decreases m@.len() - i,
    {
        if same_text(m[i].0.as_str(), k.as_str()) {
            proof {
                lemma_key_pos(pairs(m@), k@);
                match key_pos(pairs(m@), k@) {
                    Some(p) => {
                        if p < i {
                            assert(pairs(m@)[p].0 == m@[p].0@);
                        }
                        if p > i {
                            assert(pairs(m@)[i as int].0 == k@);
                        }
                    },
                    None => {
                        assert(pairs(m@)[i as int].0 == k@);
                    },
                }
            }
            let ghost before = m@;
            m.set(i, (k, v));
            assert(pairs(m@) =~= pairs(before).update(i as int, (k@, v@)));
            return;
        }
        i = i + 1;
    }
    proof {
        lemma_key_pos(pairs(m@), k@);
        match key_pos(pairs(m@), k@) {
            Some(p) => {
                assert(pairs(m@)[p].0 == m@[p].0@);
            },
            None => {},
        }
    }
    let ghost before = m@;
    m.push((k, v));
    assert(pairs(m@) =~= pairs(before).push((k@, v@)));
}

/// The state a `docker ps` status text reports, tried in this order: `Up` running, `Exited`,
/// `Created`, `Paused`, `Restarting`, `Removing`, `Dead`; anything else counts as created.
pub open spec fn status_state(status: Seq<char>) -> ContainerState {
    if find(status, "Up"@) is Some {
        ContainerState::Running
    } else if find(status, "Exited"@) is Some {
        ContainerState::Exited
    } else if find(status, "Created"@) is Some {
        ContainerState::Created
    } else if find(status, "Paused"@) is Some {
        ContainerState::Paused
    } else if find(status, "Restarting"@) is Some {
        ContainerState::Restarting
    } else if find(status, "Removing"@) is Some {
        ContainerState::Removing
    } else if find(status, "Dead"@) is Some {
        ContainerState::Dead
    } else {
        ContainerState::Created
    }
}

pub fn contains_text(s: &str, p: &str) -> (r: bool)
    ensures
        r == (find(s@, p@) is Some),
{
    let cs = chars_of(s);
    let ps = chars_of(p);
    find_chars(&cs, &ps, 0).is_some()
}

/// One published port of `docker ps`: `host->port/protocol`, each part trimmed.
pub open spec fn port_of(mapping: Seq<char>) -> Option<(Seq<char>, Seq<char>, Seq<char>)> {
    match split_once_on(mapping, "->"@) {
        Some((host, rest)) => match split_once_on(rest, "/"@) {
            Some((port, proto)) => Some((trim(host), trim(port), trim(proto))),
            None => None,
        },
        None => None,
    }
}

/// The ports of a `docker ps` ports column: the `, `-separated mappings that parse, in order.
pub open spec fn ports_of(ms: Seq<Seq<char>>) -> Seq<(Seq<char>, Seq<char>, Seq<char>)>
    decreases ms.len(),
{
    if ms.len() == 0 {
        Seq::empty()
    } else {
        match port_of(ms.last()) {
            Some(p) => ports_of(ms.drop_last()).push(p),
            None => ports_of(ms.drop_last()),
        }
    }
}

/// The views of ports.
pub open spec fn port_views(ps: Seq<PortConfig>) -> Seq<(Seq<char>, Seq<char>, Seq<char>)> {
    Seq::new(ps.len(), |i: int| (ps[i].host_port@, ps[i].container_port@, ps[i].protocol@))
}

/// The labels of a `docker ps` labels column: each `, `-separated `key=value` (trimmed)
/// put into the map in order.
pub open spec fn labels_of(ms: Seq<Seq<char>>) -> Seq<(Seq<char>, Seq<char>)>
    decreases ms.len(),
{
    if ms.len() == 0 {
        Seq::empty()
    } else {
        match split_once_on(ms.last(), "="@) {
            Some((k, v)) => put(labels_of(ms.drop_last()), trim(k), trim(v)),
            None => labels_of(ms.drop_last()),
        }
    }
}

/// The lowercase form of a string, as `str::to_lowercase` computes it.
pub uninterp spec fn lowercase_of(s: Seq<char>) -> Seq<char>;

/// Calls `str::to_lowercase`. Claimed: the result is the lowercase form named by
/// `lowercase_of` for this string (Unicode case mapping; nothing more is claimed).
#[verifier::external_body]
fn to_lowercase(s: &str) -> (r: String)
    ensures
        r@ == lowercase_of(s@),
{
    s.to_lowercase()
}

/// The value of the first pair with key `k`.
pub open spec fn lookup(m: Seq<(Seq<char>, Seq<char>)>, k: Seq<char>) -> Option<Seq<char>> {
    match key_pos(m, k) {
        Some(i) => Some(m[i].1),
        None => None,
    }
}

/// Whether a container passes the filters: its name contains the name pattern, its
/// lowercased status contains the lowercased status filter, it carries every filter label
/// with the filter's value, and it is on the filter network (each only when set).
pub open spec fn passes(c: ContainerConfig, f: ContainerFilters) -> bool {
    &&& (f.name_pattern matches Some(p) ==> find(c.name@, p@) is Some)
    &&& (f.status_filter matches Some(s) ==> find(lowercase_of(c.status@), lowercase_of(s@)) is Some)
    &&& (f.label_filters matches Some(lf) ==> (c.labels matches Some(cl) && forall|i: int|
        0 <= i < lf@.len() ==> lookup(pairs(cl@), #[trigger] lf@[i].0@) == Some(lf@[i].1@)))
    &&& (f.network_filter matches Some(n) ==> (c.networks matches Some(nets) && exists|i: int|
        0 <= i < nets@.len() && #[trigger] nets@[i].0@ == n@))
}

pub fn lookup_pair<'a>(m: &'a Vec<(String, String)>, k: &str) -> (r: Option<&'a String>)
    ensures
        match lookup(pairs(m@), k@) {
            Some(v) => r matches Some(s) && s@ == v,
            None => r is None,
        },
{
    let mut i: usize = 0;
    while i < m.len()
        invariant
            i <= m@.len(),
            forall|j: int| 0 <= j < i ==> #[trigger] m@[j].0@ != k@,
        decreases m@.len() - i,
    {
        if same_text(m[i].0.as_str(), k) {
            proof {
                lemma_key_pos(pairs(m@), k@);
                match key_pos(pairs(m@), k@) {
                    Some(p) => {
                        if p < i {
                            assert(pairs(m@)[p].0 == m@[p].0@);
                        }
                        if p > i {
                            assert(pairs(m@)[i as int].0 == k@);
                        }
                    },
                    None => {
                        assert(pairs(m@)[i as int].0 == k@);
                    },
                }
            }
            return Some(&m[i].1);
        }
        i = i + 1;
    }
    proof {
        lemma_key_pos(pairs(m@), k@);
        match key_pos(pairs(m@), k@) {
            Some(p) => {
                assert(pairs(m@)[p].0 == m@[p].0@);
            },
            None => {},
        }
    }
    None
}

fn passes_filters(c: &ContainerConfig, f: &ContainerFilters) -> (r: bool)
    ensures
        r == passes(*c, *f),
{
    match &f.name_pattern {
        Some(p) => {
            if !contains_text(c.name.as_str(), p.as_str()) {
                return false;
            }
        },
        None => {},
    }
    match &f.status_filter {
        Some(s) => {
            let a = to_lowercase(c.status.as_str());
            let b = to_lowercase(s.as_str());
            if !contains_text(a.as_str(), b.as_str()) {
                return false;
            }
        },
        None => {},
    }
    match &f.label_filters {
        Some(lf) => {
            match &c.labels {
                Some(cl) => {
                    let mut i: usize = 0;
                    while i < lf.len()
                        invariant
                            i <= lf@.len(),
                            f.label_filters == Some(*lf),
                            c.labels == Some(*cl),
                            forall|j: int| 0 <= j < i ==> lookup(pairs(cl@), #[trigger] lf@[j].0@) == Some(lf@[j].1@),
                        decreases lf@.len() - i,
                    {
                        match lookup_pair(cl, lf[i].0.as_str()) {
                            Some(v) => {
                                if !same_text(v.as_str(), lf[i].1.as_str()) {
                                    assert(lookup(pairs(cl@), lf@[i as int].0@) != Some(lf@[i as int].1@));
                                    return false;
                                }
                            },
                            None => {
                                assert(lookup(pairs(cl@), lf@[i as int].0@) != Some(lf@[i as int].1@));
                                return false;
                            },
                        }
                        i = i + 1;
                    }
                },
                None => {
                    return false;
                },
            }
        },
        None => {},
    }
    match &f.network_filter {
        Some(n) => {
            match &c.networks {
                Some(nets) => {
                    let mut i: usize = 0;
                    let mut found = false;
                    while i < nets.len()
                        invariant
                            i <= nets@.len(),
                            found == exists|j: int| 0 <= j < i && #[trigger] nets@[j].0@ == n@,
                        decreases nets@.len() - i,
                    {
                        if same_text(nets[i].0.as_str(), n.as_str()) {
                            found = true;
                        }
                        i = i + 1;
                    }
                    if !found {
                        return false;
                    }
                },
                None => {
                    return false;
                },
            }
        },
        None => {},
    }
    true
}

impl DockerStatePlugin {
    /// A plugin talking to `/var/run/docker.sock`.
    pub fn new() -> (r: DockerStatePlugin)
        ensures
            r.docker_socket@ == "/var/run/docker.sock"@,
    {
        DockerStatePlugin { docker_socket: owned("/var/run/docker.sock") }
    }

    /// A plugin talking to the given socket.
    pub fn with_docker_socket(docker_socket: String) -> (r: DockerStatePlugin)
        ensures
            r.docker_socket@ == docker_socket@,
    {
        DockerStatePlugin { docker_socket }
    }

    /// The state a `docker ps` status text reports.
    pub fn parse_container_state(&self, status: &str) -> (r: ContainerState)
        ensures
            r == status_state(status@),
    {
        if contains_text(status, "Up") {
            ContainerState::Running
        } else if contains_text(status, "Exited") {
            ContainerState::Exited
        } else if contains_text(status, "Created") {
            ContainerState::Created
        } else if contains_text(status, "Paused") {
            ContainerState::Paused
        } else if contains_text(status, "Restarting") {
            ContainerState::Restarting
        } else if contains_text(status, "Removing") {
            ContainerState::Removing
        } else if contains_text(status, "Dead") {
            ContainerState::Dead
        } else {
            ContainerState::Created
        }
    }

    /// The published ports of a `docker ps` ports column.
    pub fn parse_ports(&self, ports_str: &str) -> (r: Vec<PortConfig>)
        ensures
            port_views(r@) == ports_of(split_str_on(ports_str@, ", "@)),
    {
        proof {
            reveal_strlit(", ");
        }
        let ms = split_text(ports_str, ", ");
        let mut out: Vec<PortConfig> = Vec::new();
        let mut i: usize = 0;
        while i < ms.len()
            invariant
                i <= ms@.len(),
                texts(ms@) == split_str_on(ports_str@, ", "@),
                port_views(out@) == ports_of(texts(ms@).subrange(0, i as int)),
            decreases ms@.len() - i,
        {
            let ghost pre = texts(ms@).subrange(0, i as int);
            let ghost post = texts(ms@).subrange(0, i + 1);
            assert(post.drop_last() =~= pre);
            assert(post.last() == ms@[i as int]@);
            let ghost before = out@;
            match split_once_text(ms[i].as_str(), "->") {
                Some((host, rest)) => {
                    match split_once_text(rest.as_str(), "/") {
                        Some((port, proto)) => {
                            out.push(PortConfig {
                                host_port: trim_text(host.as_str()),
                                container_port: trim_text(port.as_str()),
                                protocol: trim_text(proto.as_str()),
                            });
                            assert(port_views(out@) =~= port_views(before).push(port_of(post.last())->0));
                        },
                        None => {},
                    }
                },
                None => {},
            }
            i = i + 1;
        }
        assert(texts(ms@).subrange(0, ms@.len() as int) =~= texts(ms@));
        out
    }

    /// The labels of a `docker ps` labels column.
    pub fn parse_labels(&self, labels_str: &str) -> (r: Vec<(String, String)>)
        ensures
            pairs(r@) == labels_of(split_str_on(labels_str@, ", "@)),
    {
        proof {
            reveal_strlit(", ");
        }
        let ms = split_text(labels_str, ", ");
        let mut out: Vec<(String, String)> = Vec::new();
        let mut i: usize = 0;
        while i < ms.len()
            invariant
                i <= ms@.len(),
                texts(ms@) == split_str_on(labels_str@, ", "@),
                pairs(out@) == labels_of(texts(ms@).subrange(0, i as int)),
            decreases ms@.len() - i,
        {
            let ghost pre = texts(ms@).subrange(0, i as int);
            let ghost post = texts(ms@).subrange(0, i + 1);
            assert(post.drop_last() =~= pre);
            assert(post.last() == ms@[i as int]@);
            match split_once_text(ms[i].as_str(), "=") {
                Some((k, v)) => {
                    put_pair(&mut out, trim_text(k.as_str()), trim_text(v.as_str()));
                },
                None => {},
            }
            i = i + 1;
        }
        assert(texts(ms@).subrange(0, ms@.len() as int) =~= texts(ms@));
        out
    }

    /// The networks of a `docker ps` networks column: the trimmed name alone, unless it is
    /// blank or exactly `bridge`.
    pub fn parse_networks(&self, networks_str: &str) -> (r: Vec<(String, NetworkConfig)>)
        ensures
            (trim(networks_str@).len() == 0 || networks_str@ == "bridge"@) ==> r@.len() == 0,
            !(trim(networks_str@).len() == 0 || networks_str@ == "bridge"@) ==> (r@.len() == 1 && r@[0].0@
                == trim(networks_str@) && r@[0].1.ip_address is None && r@[0].1.gateway is None
                && r@[0].1.mac_address is None),
    {
        let mut out: Vec<(String, NetworkConfig)> = Vec::new();
        let t = trim_text(networks_str);
        if !t.as_str().is_empty() && !same_text(networks_str, "bridge") {
            out.push((t, NetworkConfig { ip_address: None, gateway: None, mac_address: None }));
        }
        out
    }

    /// The containers that pass the filters, in order.
    pub fn filter_containers(&self, containers: Vec<ContainerConfig>, filters: &ContainerFilters) -> (r: Vec<ContainerConfig>)
        ensures
            r@ == containers@.filter(|c: ContainerConfig| passes(c, *filters)),
    {
        let mut out: Vec<ContainerConfig> = Vec::new();
        let mut rest = containers;
        let ghost all = rest@;
        let mut taken: usize = 0;
        let total = rest.len();
        while rest.len() > 0
            invariant
                total == all.len(),
                taken + rest@.len() == all.len(),
                rest@ == all.subrange(taken as int, all.len() as int),
                out@ == all.subrange(0, taken as int).filter(|c: ContainerConfig| passes(c, *filters)),
            decreases rest@.len(),
        {
            let c = rest.remove(0);
            assert(all.subrange(0, taken + 1).drop_last() =~= all.subrange(0, taken as int));
            assert(all.subrange(0, taken + 1).last() == c);
            if passes_filters(&c, filters) {
                out.push(c);
            }
            proof {
                all.subrange(0, taken as int).lemma_filter_push(all[taken as int], |c: ContainerConfig| passes(c, *filters));
                assert(all.subrange(0, taken as int).push(all[taken as int]) =~= all.subrange(0, taken + 1));
            }
            taken = taken + 1;
            assert(rest@ =~= all.subrange(taken as int, all.len() as int));
        }
        assert(all.subrange(0, all.len() as int) =~= all);
        out
    }
}


/// The string-valued members of an object, put into a map in order (others skipped; a
/// value that is not an object gives an empty map).
pub open spec fn string_members(j: Json) -> Seq<(Seq<char>, Seq<char>)> {
    match j {
        Json::Object(ms) => string_members_of(ms@),
        _ => Seq::empty(),
    }
}

/// The string-valued members among `ms`, put into a map in order.
pub open spec fn string_members_of(ms: Seq<(String, Json)>) -> Seq<(Seq<char>, Seq<char>)>
    decreases ms.len(),
{
    if ms.len() == 0 {
        Seq::empty()
    } else {
        match ms.last().1 {
            Json::Str(v) => put(string_members_of(ms.drop_last()), ms.last().0@, v@),
            _ => string_members_of(ms.drop_last()),
        }
    }
}

/// The `NAME=value` strings of an array, split at their first `=` and put into a map in
/// order (other items skipped; a value that is not an array gives an empty map).
pub open spec fn env_pairs(j: Json) -> Seq<(Seq<char>, Seq<char>)> {
    match j {
        Json::Array(items) => env_pairs_of(items@),
        _ => Seq::empty(),
    }
}

/// The `NAME=value` strings among `items`, put into a map in order.
pub open spec fn env_pairs_of(items: Seq<Json>) -> Seq<(Seq<char>, Seq<char>)>
    decreases items.len(),
{
    if items.len() == 0 {
        Seq::empty()
    } else {
        match items.last() {
            Json::Str(s) => match split_once_on(s@, "="@) {
                Some((k, v)) => put(env_pairs_of(items.drop_last()), k, v),
                None => env_pairs_of(items.drop_last()),
            },
            _ => env_pairs_of(items.drop_last()),
        }
    }
}

/// A mount of `docker inspect`: source, destination and mode (`rw` when absent), when it
/// has a string source and destination.
pub open spec fn mount_of(m: Json) -> Option<(Seq<char>, Seq<char>, Seq<char>)> {
    match (json_as_str(json_get(m, "Source"@)), json_as_str(json_get(m, "Destination"@))) {
        (Some(src), Some(dst)) => Some((src, dst, match json_as_str(json_get(m, "Mode"@)) {
            Some(mode) => mode,
            None => "rw"@,
        })),
        _ => None,
    }
}

/// The mounts among `items`, in order.
pub open spec fn mounts_of(items: Seq<Json>) -> Seq<(Seq<char>, Seq<char>, Seq<char>)>
    decreases items.len(),
{
    if items.len() == 0 {
        Seq::empty()
    } else {
        match mount_of(items.last()) {
            Some(m) => mounts_of(items.drop_last()).push(m),
            None => mounts_of(items.drop_last()),
        }
    }
}

/// The mounts of a `Mounts` value (none when it is not an array).
pub open spec fn mounts(j: Json) -> Seq<(Seq<char>, Seq<char>, Seq<char>)> {
    match j {
        Json::Array(items) => mounts_of(items@),
        _ => Seq::empty(),
    }
}

/// The views of volumes.
pub open spec fn volume_views(vs: Seq<VolumeConfig>) -> Seq<(Seq<char>, Seq<char>, Seq<char>)> {
    Seq::new(vs.len(), |i: int| (
        match vs[i].host_path {
            Some(h) => h@,
            None => Seq::empty(),
        },
        vs[i].container_path@,
        vs[i].mode@,
    ))
}

/// A value's text, or the empty text.
pub open spec fn str_or_empty(o: Option<Seq<char>>) -> Seq<char> {
    match o {
        Some(s) => s,
        None => Seq::empty(),
    }
}

/// The member `key` of the member `outer` of `j`.
pub open spec fn get2(j: Json, outer: Seq<char>, key: Seq<char>) -> Option<Json> {
    match json_get(j, outer) {
        Some(o) => json_get(o, key),
        None => None,
    }
}

fn string_members_exec(j: &Json) -> (r: Vec<(String, String)>)
    ensures
        pairs(r@) == string_members(*j),
{
    let mut out: Vec<(String, String)> = Vec::new();
    match j {
        Json::Object(ms) => {
            let mut i: usize = 0;
            while i < ms.len()
                invariant
                    i <= ms@.len(),
                    pairs(out@) == string_members_of(ms@.subrange(0, i as int)),
                decreases ms@.len() - i,
            {
                assert(ms@.subrange(0, i + 1).drop_last() =~= ms@.subrange(0, i as int));
                assert(ms@.subrange(0, i + 1).last() == ms@[i as int]);
                match &ms[i].1 {
                    Json::Str(v) => {
                        put_pair(&mut out, ms[i].0.clone(), v.clone());
                    },
                    _ => {},
                }
                i = i + 1;
            }
            assert(ms@.subrange(0, ms@.len() as int) =~= ms@);
        },
        _ => {
            assert(pairs(out@) =~= Seq::<(Seq<char>, Seq<char>)>::empty());
        },
    }
    out
}

fn env_pairs_exec(j: &Json) -> (r: Vec<(String, String)>)
    ensures
        pairs(r@) == env_pairs(*j),
{
    let mut out: Vec<(String, String)> = Vec::new();
    match j {
        Json::Array(items) => {
            let mut i: usize = 0;
            while i < items.len()
                invariant
                    i <= items@.len(),
                    pairs(out@) == env_pairs_of(items@.subrange(0, i as int)),
                decreases items@.len() - i,
            {
                assert(items@.subrange(0, i + 1).drop_last() =~= items@.subrange(0, i as int));
                assert(items@.subrange(0, i + 1).last() == items@[i as int]);
                match &items[i] {
                    Json::Str(s) => {
                        match split_once_text(s.as_str(), "=") {
                            Some((k, v)) => {
                                put_pair(&mut out, k, v);
                            },
                            None => {},
                        }
                    },
                    _ => {},
                }
                i = i + 1;
            }
            assert(items@.subrange(0, items@.len() as int) =~= items@);
        },
        _ => {
            assert(pairs(out@) =~= Seq::<(Seq<char>, Seq<char>)>::empty());
        },
    }
    out
}

fn mounts_exec(j: &Json) -> (r: Vec<VolumeConfig>)
    ensures
        volume_views(r@) == mounts(*j),
        forall|i: int| 0 <= i < r@.len() ==> (#[trigger] r@[i]).host_path is Some,
{
    let mut out: Vec<VolumeConfig> = Vec::new();
    match j {
        Json::Array(items) => {
            let mut i: usize = 0;
            while i < items.len()
                invariant
                    i <= items@.len(),
                    volume_views(out@) == mounts_of(items@.subrange(0, i as int)),
                    forall|k: int| 0 <= k < out@.len() ==> (#[trigger] out@[k]).host_path is Some,
                decreases items@.len() - i,
            {
                assert(items@.subrange(0, i + 1).drop_last() =~= items@.subrange(0, i as int));
                assert(items@.subrange(0, i + 1).last() == items@[i as int]);
                let m = &items[i];
                let src = opt_as_str(m.get("Source"));
                let dst = opt_as_str(m.get("Destination"));
                match (src, dst) {
                    (Some(s), Some(d)) => {
                        let mode = match opt_as_str(m.get("Mode")) {
                            Some(md) => owned(md),
                            None => owned("rw"),
                        };
                        let ghost before = out@;
                        out.push(VolumeConfig { host_path: Some(owned(s)), container_path: owned(d), mode });
                        assert(volume_views(out@) =~= volume_views(before).push(mount_of(items@[i as int])->0));
                    },
                    _ => {},
                }
                i = i + 1;
            }
            assert(items@.subrange(0, items@.len() as int) =~= items@);
        },
        _ => {
            assert(volume_views(out@) =~= Seq::<(Seq<char>, Seq<char>, Seq<char>)>::empty());
        },
    }
    out
}

/// What `get_container_details` reads out of the first container of `docker inspect`.
pub open spec fn details_match(c: ContainerConfig, d: Json) -> bool {
    &&& (match c.id {
        Some(s) => json_as_str(json_get(d, "Id"@)) == Some(s@),
        None => json_as_str(json_get(d, "Id"@)) is None,
    })
    &&& c.name@ == trim_char(str_or_empty(json_as_str(json_get(d, "Name"@))), '/')
    &&& c.image@ == str_or_empty(json_as_str(get2(d, "Config"@, "Image"@)))
    &&& c.status@ == "unknown"@
    &&& c.state == ContainerState::Created
    &&& c.networks is None
    &&& c.ports is None
    &&& (match get2(d, "Config"@, "Labels"@) {
        Some(l) => c.labels matches Some(m) && pairs(m@) == string_members(l),
        None => c.labels is None,
    })
    &&& (match get2(d, "Config"@, "Env"@) {
        Some(e) => c.environment matches Some(m) && pairs(m@) == env_pairs(e),
        None => c.environment is None,
    })
    &&& (match json_get(d, "Mounts"@) {
        Some(ms) => c.volumes matches Some(v) && volume_views(v@) == mounts(ms) && forall|i: int|
            0 <= i < v@.len() ==> (#[trigger] v@[i]).host_path is Some,
        None => c.volumes is None,
    })
    &&& c.restart_policy is None
    &&& c.health_check is None
    &&& c.properties is None
    &&& c.property_schema is None
}

fn get_config_member<'a>(d: &'a Json, key: &str) -> (r: Option<&'a Json>)
    ensures
        match get2(*d, "Config"@, key@) {
            Some(v) => r matches Some(x) && *x == v,
            None => r is None,
        },
{
    match d.get("Config") {
        Some(c) => c.get(key),
        None => None,
    }
}

impl DockerStatePlugin {
    /// Reads a container's details out of the parsed output of `docker inspect` (an array
    /// whose first element describes the container).
    pub fn get_container_details(&self, container_id: &str, inspect: &Json) -> (r: Result<ContainerConfig, Error>)
        ensures
            match *inspect {
                Json::Array(items) => if items@.len() == 0 {
                    r matches Err(Error::Container(m)) && m@ == "No container data returned for "@ + container_id@
                } else {
                    r matches Ok(c) && details_match(c, items@[0])
                },
                _ => r matches Err(Error::Serialization(m)) && m@ == "Failed to parse docker inspect output"@,
            },
    {
        let items = match inspect {
            Json::Array(items) => items,
            _ => {
                return Err(Error::Serialization(owned("Failed to parse docker inspect output")));
            },
        };
        if items.len() == 0 {
            let mut m = owned("No container data returned for ");
            crate::text::push_str(&mut m, container_id);
            return Err(Error::Container(m));
        }
        let d = &items[0];
        let id = match opt_as_str(d.get("Id")) {
            Some(s) => Some(owned(s)),
            None => None,
        };
        let raw_name = match opt_as_str(d.get("Name")) {
            Some(s) => s,
            None => "",
        };
        let name = trim_char_text(raw_name, '/');
        let image = match opt_as_str(get_config_member(d, "Image")) {
            Some(s) => owned(s),
            None => owned(""),
        };
        let labels = match get_config_member(d, "Labels") {
            Some(l) => Some(string_members_exec(l)),
            None => None,
        };
        let environment = match get_config_member(d, "Env") {
            Some(e) => Some(env_pairs_exec(e)),
            None => None,
        };
        let volumes = match d.get("Mounts") {
            Some(ms) => Some(mounts_exec(ms)),
            None => None,
        };
        proof {
            reveal_strlit("");
        }
        let c = ContainerConfig {
            id,
            name,
            image,
            status: owned("unknown"),
            state: ContainerState::Created,
            networks: None,
            ports: None,
            labels,
            environment,
            volumes,
            restart_policy: None,
            health_check: None,
            properties: None,
            property_schema: None,
        };
        assert(*d == items@[0]);
        assert(c.name@ == trim_char(str_or_empty(json_as_str(json_get(*d, "Name"@))), '/'));
        assert(c.image@ == str_or_empty(json_as_str(get2(*d, "Config"@, "Image"@))));
        assert(match c.id {
            Some(s) => json_as_str(json_get(*d, "Id"@)) == Some(s@),
            None => json_as_str(json_get(*d, "Id"@)) is None,
        });
        assert(details_match(c, *d));
        Ok(c)
    }

    /// Reads one line of `docker ps` table output (tab-separated id, names, image, status,
    /// ports, labels, networks); `None` for a line with fewer than seven columns.
    pub fn parse_container_line(&self, line: &str) -> (r: Option<ContainerConfig>)
        ensures
            split_on(line@, '\t').len() < 7 ==> r is None,
            split_on(line@, '\t').len() >= 7 ==> (r matches Some(c) && {
                let p = split_on(line@, '\t');
                &&& c.id matches Some(i) && i@ == p[0]
                &&& c.name@ == trim_char(p[1], '"')
                &&& c.image@ == p[2]
                &&& c.status@ == p[3]
                &&& c.state == status_state(p[3])
                &&& (trim(p[4]).len() == 0 ==> c.ports is None)
                &&& (trim(p[4]).len() > 0 ==> (c.ports matches Some(ps) && port_views(ps@) == ports_of(
                    split_str_on(p[4], ", "@),
                )))
                &&& (trim(p[5]).len() == 0 ==> c.labels is None)
                &&& (trim(p[5]).len() > 0 ==> (c.labels matches Some(ls) && pairs(ls@) == labels_of(
                    split_str_on(p[5], ", "@),
                )))
                &&& (trim(p[6]).len() == 0 ==> c.networks is None)
                &&& (trim(p[6]).len() > 0 ==> c.networks is Some)
                &&& c.environment is None
                &&& c.volumes is None
            }),
    {
        let parts = split_char(line, '\t');
        if parts.len() < 7 {
            return None;
        }
        proof {
            assert(texts(parts@)[0] == parts@[0]@);
            assert(texts(parts@)[1] == parts@[1]@);
            assert(texts(parts@)[2] == parts@[2]@);
            assert(texts(parts@)[3] == parts@[3]@);
            assert(texts(parts@)[4] == parts@[4]@);
            assert(texts(parts@)[5] == parts@[5]@);
            assert(texts(parts@)[6] == parts@[6]@);
        }
        let state = self.parse_container_state(parts[3].as_str());
        let ports = if trim_text(parts[4].as_str()).as_str().is_empty() {
            None
        } else {
            Some(self.parse_ports(parts[4].as_str()))
        };
        let labels = if trim_text(parts[5].as_str()).as_str().is_empty() {
            None
        } else {
            Some(self.parse_labels(parts[5].as_str()))
        };
        let networks = if trim_text(parts[6].as_str()).as_str().is_empty() {
            None
        } else {
            Some(self.parse_networks(parts[6].as_str()))
        };
        Some(ContainerConfig {
            id: Some(parts[0].clone()),
            name: trim_char_text(parts[1].as_str(), '"'),
            image: parts[2].clone(),
            status: parts[3].clone(),
            state,
            networks,
            ports,
            labels,
            environment: None,
            volumes: None,
            restart_policy: None,
            health_check: None,
            properties: None,
            property_schema: None,
        })
    }
}

} // verus!
