//! What the state plugins share: their names, versions and capabilities, checkpoint
//! records, the results of plugins that only track externally managed resources, and the
//! check that every desired resource is present.
use vstd::prelude::*;
use crate::text::{owned, push_str, push_char, push_decimal, dec, texts};
use crate::json::{Json, json_get, json_same, copy_json};
use crate::state::{plan_changes, actions_are, planned_changes};
use crate::state::{ApplyResult, Checkpoint, StateAction};
use crate::docker::DockerStatePlugin;
use crate::netmaker::NetmakerStatePlugin;
use crate::netconf::{NetStatePlugin, NetworkStatePlugin, InterfaceConfig, InterfaceType};
use crate::ovsdb_fuse::{record_attributes, attrs_match, attributes_of, string_items, str_items};
use crate::ovsdb_wrapper::NetcfgStatePlugin;

verus! {

/// What a plugin supports.
#[derive(Clone, Copy, PartialEq, Eq, Structural)]
pub struct PluginCapabilities {
    pub supports_rollback: bool,
    pub supports_checkpoints: bool,
    pub supports_verification: bool,
    pub atomic_operations: bool,
}

/// The decimal representation of a signed number.
pub open spec fn signed_dec(n: int) -> Seq<char> {
    if n < 0 {
        seq!['-'] + dec((-n) as nat)
    } else {
        dec(n as nat)
    }
}

/// Appends the decimal representation of a signed number.
pub fn push_signed(s: &mut String, n: i64)
    ensures
        final(s)@ == old(s)@ + signed_dec(n as int),
{
    if n < 0 {
        push_char(s, '-');
        let m: u64 = ((-(n + 1)) as u64) + 1;
        push_decimal(s, m);
        assert(final(s)@ =~= old(s)@ + signed_dec(n as int));
    } else {
        push_decimal(s, n as u64);
    }
}

/// A checkpoint of plugin `plugin` taken at `timestamp`, with id `<prefix>-<timestamp>`.
pub fn checkpoint_at(prefix: &str, plugin: &str, timestamp: i64, snapshot: Json) -> (r: Checkpoint)
    ensures
        r.id@ == prefix@ + "-"@ + signed_dec(timestamp as int),
        r.plugin@ == plugin@,
        r.timestamp == timestamp,
        r.state_snapshot == snapshot,
        r.backend_checkpoint is None,
{
    let mut id = owned(prefix);
    push_str(&mut id, "-");
    push_signed(&mut id, timestamp);
    Checkpoint { id, plugin: owned(plugin), timestamp, state_snapshot: snapshot, backend_checkpoint: None }
}

/// The messages of a plugin that only tracks resources managed elsewhere: `noted` and the
/// resource for each create or modify, `removed` and the resource for each delete.
pub open spec fn noted_messages(actions: Seq<StateAction>, noted: Seq<char>, removed: Seq<char>) -> Seq<Seq<char>>
    decreases actions.len(),
{
    if actions.len() == 0 {
        seq![]
    } else {
        let r = noted_messages(actions.drop_last(), noted, removed);
        match actions.last() {
            StateAction::Create { resource, .. } => r.push(noted + resource@),
            StateAction::Modify { resource, .. } => r.push(noted + resource@),
            StateAction::Delete { resource } => r.push(removed + resource@),
            StateAction::NoOp { .. } => r,
        }
    }
}

/// The result of a plugin that only tracks resources managed elsewhere: every action is
/// noted as a change, and nothing fails.
pub fn noted_result(actions: &Vec<StateAction>, noted: &str, removed: &str) -> (r: ApplyResult)
    ensures
        r.success,
        texts(r.changes_applied@) == noted_messages(actions@, noted@, removed@),
        r.errors@.len() == 0,
        r.checkpoint is None,
{
    let mut changes: Vec<String> = Vec::new();
    let mut i: usize = 0;
    while i < actions.len()
        invariant
            i <= actions@.len(),
            texts(changes@) == noted_messages(actions@.take(i as int), noted@, removed@),
        decreases actions@.len() - i,
    {
        proof {
            assert(actions@.take(i + 1).drop_last() =~= actions@.take(i as int));
            assert(actions@.take(i + 1).last() == actions@[i as int]);
        }
        let ghost before = changes@;
        match &actions[i] {
            StateAction::Create { resource, .. } | StateAction::Modify { resource, .. } => {
                let mut m = owned(noted);
                push_str(&mut m, resource.as_str());
                changes.push(m);
                assert(texts(changes@) =~= texts(before).push(noted@ + resource@));
            },
            StateAction::Delete { resource } => {
                let mut m = owned(removed);
                push_str(&mut m, resource.as_str());
                changes.push(m);
                assert(texts(changes@) =~= texts(before).push(removed@ + resource@));
            },
            StateAction::NoOp { .. } => {},
        }
        i = i + 1;
    }
    assert(actions@.take(actions@.len() as int) =~= actions@);
    ApplyResult { success: true, changes_applied: changes, errors: Vec::new(), checkpoint: None }
}

/// Whether every desired name is among the current ones.
pub fn names_present(desired: &Vec<String>, current: &Vec<String>) -> (r: bool)
    ensures
        r == forall|i: int| 0 <= i < desired@.len() ==> texts(current@).contains(#[trigger] desired@[i]@),
{
    let mut i: usize = 0;
    while i < desired.len()
        invariant
            i <= desired@.len(),
            forall|j: int| 0 <= j < i ==> texts(current@).contains(#[trigger] desired@[j]@),
        decreases desired@.len() - i,
    {
        let found = crate::text::list_contains(current, desired[i].as_str());
        proof {
            if found {
                let k = choose|k: int| 0 <= k < current@.len() && #[trigger] current@[k]@ == desired@[i as int]@;
                assert(texts(current@)[k] == desired@[i as int]@);
            } else {
                assert forall|k: int| 0 <= k < texts(current@).len() implies texts(current@)[k] != desired@[i as int]@ by {
                    assert(texts(current@)[k] == current@[k]@);
                }
            }
        }
        if !found {
            return false;
        }
        i = i + 1;
    }
    true
}

impl DockerStatePlugin {
    /// The plugin's name.
    pub fn name(&self) -> (r: &'static str)
        ensures
            r@ == "docker"@,
    {
        "docker"
    }

    /// The plugin's version.
    pub fn version(&self) -> (r: &'static str)
        ensures
            r@ == "1.0.0"@,
    {
        "1.0.0"
    }

    /// Containers are managed outside: no rollback, no atomic operations.
    pub fn capabilities(&self) -> (r: PluginCapabilities)
        ensures
            r == (PluginCapabilities {
                supports_rollback: false,
                supports_checkpoints: true,
                supports_verification: true,
                atomic_operations: false,
            }),
    {
        PluginCapabilities {
            supports_rollback: false,
            supports_checkpoints: true,
            supports_verification: true,
            atomic_operations: false,
        }
    }

    /// Applying a diff notes each container change; the containers are managed outside.
    pub fn apply_changes(&self, actions: &Vec<StateAction>) -> (r: ApplyResult)
        ensures
            r.success,
            texts(r.changes_applied@) == noted_messages(actions@, "Tracked container state: "@, "Noted container removal: "@),
            r.errors@.len() == 0,
            r.checkpoint is None,
    {
        noted_result(actions, "Tracked container state: ", "Noted container removal: ")
    }
}

impl NetmakerStatePlugin {
    /// The plugin's name.
    pub fn name(&self) -> (r: &'static str)
        ensures
            r@ == "netmaker"@,
    {
        "netmaker"
    }

    /// The plugin's version.
    pub fn version(&self) -> (r: &'static str)
        ensures
            r@ == "1.0.0"@,
    {
        "1.0.0"
    }

    /// Netmaker's state is managed outside: no rollback, no atomic operations.
    pub fn capabilities(&self) -> (r: PluginCapabilities)
        ensures
            r == (PluginCapabilities {
                supports_rollback: false,
                supports_checkpoints: true,
                supports_verification: true,
                atomic_operations: false,
            }),
    {
        PluginCapabilities {
            supports_rollback: false,
            supports_checkpoints: true,
            supports_verification: true,
            atomic_operations: false,
        }
    }

    /// Applying a diff notes each container change; Netmaker manages the containers.
    pub fn apply_changes(&self, actions: &Vec<StateAction>) -> (r: ApplyResult)
        ensures
            r.success,
            texts(r.changes_applied@) == noted_messages(
                actions@,
                "Tracked Netmaker container state: "@,
                "Noted Netmaker container removal: "@,
            ),
            r.errors@.len() == 0,
            r.checkpoint is None,
    {
        noted_result(actions, "Tracked Netmaker container state: ", "Noted Netmaker container removal: ")
    }
}

impl NetStatePlugin {
    /// The plugin's name.
    pub fn name(&self) -> (r: &'static str)
        ensures
            r@ == "net"@,
    {
        "net"
    }

    /// The plugin's version.
    pub fn version(&self) -> (r: &'static str)
        ensures
            r@ == "1.0.0"@,
    {
        "1.0.0"
    }

    /// networkd applies changes interface by interface: everything but atomic operations.
    pub fn capabilities(&self) -> (r: PluginCapabilities)
        ensures
            r == (PluginCapabilities {
                supports_rollback: true,
                supports_checkpoints: true,
                supports_verification: true,
                atomic_operations: false,
            }),
    {
        PluginCapabilities {
            supports_rollback: true,
            supports_checkpoints: true,
            supports_verification: true,
            atomic_operations: false,
        }
    }
}

impl NetworkStatePlugin {
    /// The plugin's name.
    pub fn name(&self) -> (r: &'static str)
        ensures
            r@ == "network"@,
    {
        "network"
    }

    /// The plugin's version.
    pub fn version(&self) -> (r: &'static str)
        ensures
            r@ == "1.0.0"@,
    {
        "1.0.0"
    }
}

impl NetcfgStatePlugin {
    /// The plugin's name.
    pub fn name(&self) -> (r: &'static str)
        ensures
            r@ == "netcfg"@,
    {
        "netcfg"
    }

    /// The plugin's version.
    pub fn version(&self) -> (r: &'static str)
        ensures
            r@ == "1.0.0"@,
    {
        "1.0.0"
    }

    /// Everything but atomic operations.
    pub fn capabilities(&self) -> (r: PluginCapabilities)
        ensures
            r == (PluginCapabilities {
                supports_rollback: true,
                supports_checkpoints: true,
                supports_verification: true,
                atomic_operations: false,
            }),
    {
        PluginCapabilities {
            supports_rollback: true,
            supports_checkpoints: true,
            supports_verification: true,
            atomic_operations: false,
        }
    }
}


/// A section of a configuration: the member `k`, unless it is absent or null.
pub open spec fn section(j: Json, k: Seq<char>) -> Option<Json> {
    match json_get(j, k) {
        Some(Json::Null) => None,
        Some(v) => Some(v),
        None => None,
    }
}

/// The desired configuration sets section `k` to something other than the current one.
pub open spec fn section_changed(c: Json, d: Json, k: Seq<char>) -> bool {
    &&& section(d, k) is Some
    &&& !(section(c, k) matches Some(cv) && json_same(cv, section(d, k)->0))
}

/// Section `k` when its desired setting differs from the current one.
pub open spec fn if_changed(c: Json, d: Json, k: Seq<char>) -> Seq<Seq<char>> {
    if section_changed(c, d, k) {
        seq![k]
    } else {
        seq![]
    }
}

/// The sections (routing, OVS flows, DNS, in that order) whose desired setting differs
/// from the current one.
pub open spec fn changed_sections(c: Json, d: Json) -> Seq<Seq<char>> {
    if_changed(c, d, "routing"@) + if_changed(c, d, "ovs_flows"@) + if_changed(c, d, "dns"@)
}

/// `a` modifies section `k` from its current setting (null when there is none) to its
/// desired one, as the object `{"old": .., "new": ..}`.
pub open spec fn modifies_section(a: StateAction, c: Json, d: Json, k: Seq<char>) -> bool {
    match a {
        StateAction::Modify { resource, changes } => {
            &&& resource@ == k
            &&& changes matches Json::Object(ms)
            &&& ms@.len() == 2
            &&& ms@[0].0@ == "old"@
            &&& json_same(
                match section(c, k) {
                    Some(cv) => cv,
                    None => Json::Null,
                },
                ms@[0].1,
            )
            &&& ms@[1].0@ == "new"@
            &&& json_same(section(d, k)->0, ms@[1].1)
        },
        _ => false,
    }
}

/// The section `k` of a configuration.
fn section_of<'a>(j: &'a Json, k: &str) -> (r: Option<&'a Json>)
    ensures
        match section(*j, k@) {
            Some(v) => r matches Some(x) && *x == v,
            None => r is None,
        },
{
    match j.get(k) {
        Some(Json::Null) => None,
        Some(v) => Some(v),
        None => None,
    }
}

/// The action for section `k`, when its desired setting differs from the current one.
fn section_action(c: &Json, d: &Json, k: &str) -> (r: Option<StateAction>)
    ensures
        section_changed(*c, *d, k@) ==> (r matches Some(a) && modifies_section(a, *c, *d, k@)),
        !section_changed(*c, *d, k@) ==> r is None,
{
    let dv = match section_of(d, k) {
        Some(v) => v,
        None => {
            return None;
        },
    };
    let old = match section_of(c, k) {
        Some(cv) => {
            if crate::json::same_json(cv, dv) {
                return None;
            }
            copy_json(cv)
        },
        None => Json::Null,
    };
    let mut ms: Vec<(String, Json)> = Vec::new();
    ms.push((owned("old"), old));
    ms.push((owned("new"), copy_json(dv)));
    Some(StateAction::Modify { resource: owned(k), changes: Json::Object(ms) })
}

impl NetcfgStatePlugin {
    /// The changes between two netcfg configurations (as serialized): a modify of each
    /// section (routing, OVS flows, DNS) that the desired configuration sets to something
    /// other than the current one, in that order.
    pub fn diff_actions(&self, current: &Json, desired: &Json) -> (r: Vec<StateAction>)
        ensures
            r@.len() == changed_sections(*current, *desired).len(),
            forall|i: int| 0 <= i < r@.len() ==> modifies_section(#[trigger] r@[i], *current, *desired, changed_sections(*current, *desired)[i]),
    {
        let ghost c = *current;
        let ghost d = *desired;
        let mut out: Vec<StateAction> = Vec::new();
        if let Some(a) = section_action(current, desired, "routing") {
            out.push(a);
        }
        let ghost one = out@;
        assert(one.len() == if_changed(c, d, "routing"@).len());
        if let Some(a) = section_action(current, desired, "ovs_flows") {
            out.push(a);
        }
        let ghost two = out@;
        assert(two.len() == (if_changed(c, d, "routing"@) + if_changed(c, d, "ovs_flows"@)).len());
        if let Some(a) = section_action(current, desired, "dns") {
            out.push(a);
        }
        proof {
            let cs = changed_sections(c, d);
            assert forall|i: int| 0 <= i < out@.len() implies modifies_section(#[trigger] out@[i], c, d, cs[i]) by {
                if i < one.len() {
                    assert(out@[i] == one[i]);
                    assert(cs[i] == if_changed(c, d, "routing"@)[i]);
                } else if i < two.len() {
                    assert(out@[i] == two[i]);
                    assert(cs[i] == if_changed(c, d, "ovs_flows"@)[i - one.len()]);
                } else {
                    assert(cs[i] == if_changed(c, d, "dns"@)[i - two.len()]);
                }
            }
        }
        out
    }
}

impl NetStatePlugin {
    /// The changes between the current and desired interfaces, by name.
    pub fn diff_actions(&self, current: &Vec<(Option<String>, String, Json)>, desired: &Vec<(Option<String>, String, Json)>) -> (r: Vec<StateAction>)
        ensures
            actions_are(r@, planned_changes(current@, desired@, ""@)),
    {
        plan_changes(current, desired, "")
    }
}

impl NetworkStatePlugin {
    /// The changes between the current and desired interfaces, by name.
    pub fn diff_actions(&self, current: &Vec<(Option<String>, String, Json)>, desired: &Vec<(Option<String>, String, Json)>) -> (r: Vec<StateAction>)
        ensures
            actions_are(r@, planned_changes(current@, desired@, ""@)),
    {
        plan_changes(current, desired, "")
    }
}

impl DockerStatePlugin {
    /// The changes between the current and desired containers, matched by id and named
    /// `container:<name>`.
    pub fn diff_actions(&self, current: &Vec<(Option<String>, String, Json)>, desired: &Vec<(Option<String>, String, Json)>) -> (r: Vec<StateAction>)
        ensures
            actions_are(r@, planned_changes(current@, desired@, "container:"@)),
    {
        plan_changes(current, desired, "container:")
    }
}

impl NetmakerStatePlugin {
    /// The changes between the current and desired Netmaker containers, matched by name
    /// and named `netmaker_container:<name>`.
    pub fn diff_actions(&self, current: &Vec<(Option<String>, String, Json)>, desired: &Vec<(Option<String>, String, Json)>) -> (r: Vec<StateAction>)
        ensures
            actions_are(r@, planned_changes(current@, desired@, "netmaker_container:"@)),
    {
        plan_changes(current, desired, "netmaker_container:")
    }
}

impl NetStatePlugin {
    /// The interface configuration of an OVS bridge from what OVSDB reports: its record's
    /// attributes as properties (metadata left out), its ports when their listing is an
    /// array, no IP settings, and the property schema `["ovsdb"]`.
    pub fn ovs_bridge_config(&self, name: &str, info: &Json, ports: Option<&Json>) -> (r: InterfaceConfig)
        ensures
            r.name@ == name@,
            r.if_type == InterfaceType::OvsBridge,
            match ports {
                Some(Json::Array(_)) => r.ports matches Some(ps) && texts(ps@) == str_items(*ports->0),
                _ => r.ports is None,
            },
            r.ipv4 is None && r.ipv6 is None && r.controller is None,
            r.properties matches Some(props) && attrs_match(props@, attributes_of(*info)),
            r.property_schema matches Some(s) && s@.len() == 1 && s@[0]@ == "ovsdb"@,
    {
        let port_list = match ports {
            Some(p) => match p {
                Json::Array(_) => Some(string_items(p)),
                _ => None,
            },
            None => None,
        };
        let mut schema: Vec<String> = Vec::new();
        schema.push(owned("ovsdb"));
        InterfaceConfig {
            name: owned(name),
            if_type: InterfaceType::OvsBridge,
            ports: port_list,
            ipv4: None,
            ipv6: None,
            controller: None,
            properties: Some(record_attributes(info)),
            property_schema: Some(schema),
        }
    }
}
} // verus!
