//! Applying a network diff with systemd-networkd, one step at a time: each interface to
//! create or modify gets its configuration written, each one to delete loses its OVS bridge
//! (for `ovsbr*` names) and its configuration files, and networkd reloads when anything
//! changed. Every outcome is recorded as a change applied or an error.
use vstd::prelude::*;
use crate::text::{owned, push_str, texts};
use crate::lines::{starts, starts_with_text};
use crate::state::{ApplyResult, StateAction};

verus! {

/// What a diff's action asks of the network plugin.
pub enum NetChange {
    /// Write the configuration of this interface (a create or a modify).
    Configure(String),
    /// Remove this interface.
    Remove(String),
    /// Nothing.
    Skip,
}

/// Where the apply stands, and what it waits for.
#[derive(Clone, Copy, PartialEq, Eq, Structural)]
pub enum NetPhase {
    /// About to take the next action.
    Next,
    /// Waiting for a configuration to be written.
    Writing,
    /// Waiting for an OVS bridge to be deleted.
    DeletingBridge,
    /// Waiting for configuration files to be removed.
    RemovingFiles,
    /// Waiting for networkd to reload over D-Bus.
    ReloadingZbus,
    /// Waiting for `networkctl reload`.
    ReloadingNetworkctl,
    /// Done.
    Done,
}

/// What the apply asks to be done next.
pub enum NetStep {
    /// Write the configuration of the action at this position.
    WriteConfig(usize),
    /// Delete this OVS bridge.
    DeleteBridge(String),
    /// Remove these two files (the `.network` and the `.netdev` file), ignoring failures.
    RemoveFiles(String, String),
    /// Reload networkd over D-Bus.
    ReloadZbus,
    /// Reload networkd with `networkctl reload`.
    ReloadNetworkctl,
    /// Stop; the outcome is ready.
    Finish,
}

/// What the apply asks to be done next, as values.
pub ghost enum NetStepV {
    WriteConfig(int),
    DeleteBridge(Seq<char>),
    RemoveFiles(Seq<char>, Seq<char>),
    ReloadZbus,
    ReloadNetworkctl,
    Finish,
}

impl View for NetStep {
    type V = NetStepV;

    open spec fn view(&self) -> NetStepV {
        match self {
            NetStep::WriteConfig(i) => NetStepV::WriteConfig(*i as int),
            NetStep::DeleteBridge(b) => NetStepV::DeleteBridge(b@),
            NetStep::RemoveFiles(a, b) => NetStepV::RemoveFiles(a@, b@),
            NetStep::ReloadZbus => NetStepV::ReloadZbus,
            NetStep::ReloadNetworkctl => NetStepV::ReloadNetworkctl,
            NetStep::Finish => NetStepV::Finish,
        }
    }
}

/// Why a reload over D-Bus failed.
pub enum ZbusFailure {
    /// No connection to networkd.
    Connect(String),
    /// The reload call failed.
    Reload(String),
}

/// What came of the last thing done.
pub enum NetEvent {
    Wrote(Result<(), String>),
    /// The configuration of the action is not a valid interface configuration.
    ConfigInvalid(String),
    BridgeDeleted(Result<(), String>),
    FilesRemoved,
    ZbusReloaded(Result<(), ZbusFailure>),
    NetworkctlReloaded(Result<(), String>),
}

/// What a diff's action asks of the network plugin.
pub open spec fn change_of(a: StateAction) -> NetChange {
    match a {
        StateAction::Create { resource, .. } => NetChange::Configure(resource),
        StateAction::Modify { resource, .. } => NetChange::Configure(resource),
        StateAction::Delete { resource } => NetChange::Remove(resource),
        StateAction::NoOp { .. } => NetChange::Skip,
    }
}

/// The interface an action is about.
pub open spec fn change_name(c: NetChange) -> Seq<char> {
    match c {
        NetChange::Configure(r) => r@,
        NetChange::Remove(r) => r@,
        NetChange::Skip => Seq::empty(),
    }
}

/// The `.network` file of an interface in a configuration directory.
pub open spec fn network_path(dir: Seq<char>, name: Seq<char>) -> Seq<char> {
    dir + "/10-"@ + name + ".network"@
}

/// The `.netdev` file of an interface in a configuration directory.
pub open spec fn netdev_path(dir: Seq<char>, name: Seq<char>) -> Seq<char> {
    dir + "/10-"@ + name + ".netdev"@
}

/// The state of an apply, as values.
pub ghost struct NetState {
    pub phase: NetPhase,
    pub index: int,
    pub changes: Seq<Seq<char>>,
    pub errors: Seq<Seq<char>>,
    pub zbus_error: Seq<char>,
    pub failure: Option<Seq<char>>,
}

/// The first position at or after `from` whose action is not a no-op.
pub open spec fn next_change(cs: Seq<NetChange>, from: int) -> int
    decreases cs.len() - from,
{
    if from >= cs.len() {
        cs.len() as int
    } else if cs[from] is Skip {
        next_change(cs, from + 1)
    } else {
        from
    }
}

/// Takes in what came of the last thing done.
pub open spec fn net_absorb(cs: Seq<NetChange>, s: NetState, ev: NetEvent) -> NetState {
    let name = change_name(cs[s.index]);
    match (s.phase, ev) {
        (NetPhase::Writing, NetEvent::Wrote(Ok(_))) => NetState {
            phase: NetPhase::Next,
            index: s.index + 1,
            changes: s.changes.push("Configured interface: "@ + name),
            ..s
        },
        (NetPhase::Writing, NetEvent::Wrote(Err(e))) => NetState {
            phase: NetPhase::Next,
            index: s.index + 1,
            errors: s.errors.push("Failed to configure "@ + name + ": "@ + e@),
            ..s
        },
        (NetPhase::Writing, NetEvent::ConfigInvalid(e)) => NetState { phase: NetPhase::Done, failure: Some(e@), ..s },
        (NetPhase::DeletingBridge, NetEvent::BridgeDeleted(Ok(_))) => NetState {
            phase: NetPhase::RemovingFiles,
            changes: s.changes.push("Deleted OVS bridge: "@ + name),
            ..s
        },
        (NetPhase::DeletingBridge, NetEvent::BridgeDeleted(Err(e))) => NetState {
            phase: NetPhase::RemovingFiles,
            errors: s.errors.push("Failed to delete OVS bridge "@ + name + ": "@ + e@),
            ..s
        },
        (NetPhase::RemovingFiles, NetEvent::FilesRemoved) => NetState {
            phase: NetPhase::Next,
            index: s.index + 1,
            changes: s.changes.push("Removed interface config: "@ + name),
            ..s
        },
        (NetPhase::ReloadingZbus, NetEvent::ZbusReloaded(r)) => match r {
            Ok(_) => NetState { phase: NetPhase::Done, ..s },
            Err(ZbusFailure::Reload(e)) => NetState {
                phase: NetPhase::Done,
                errors: s.errors.push("Failed to reload networkd (zbus): "@ + e@),
                ..s
            },
            Err(ZbusFailure::Connect(e)) => NetState { phase: NetPhase::ReloadingNetworkctl, zbus_error: e@, ..s },
        },
        (NetPhase::ReloadingNetworkctl, NetEvent::NetworkctlReloaded(r)) => match r {
            Ok(_) => NetState { phase: NetPhase::Done, ..s },
            Err(e2) => NetState {
                phase: NetPhase::Done,
                errors: s.errors.push("Failed to reload networkd (zbus="@ + s.zbus_error + "): "@ + e2@),
                ..s
            },
        },
        _ => s,
    }
}

/// The next thing to do, and the state it leaves.
pub open spec fn net_advance(dir: Seq<char>, cs: Seq<NetChange>, s: NetState) -> (NetState, NetStepV) {
    match s.phase {
        NetPhase::Next => {
            let i = next_change(cs, s.index);
            if i < cs.len() {
                match cs[i] {
                    NetChange::Configure(_) => (NetState { phase: NetPhase::Writing, index: i, ..s }, NetStepV::WriteConfig(i)),
                    _ => {
                        let name = change_name(cs[i]);
                        if starts(name, "ovsbr"@) {
                            (NetState { phase: NetPhase::DeletingBridge, index: i, ..s }, NetStepV::DeleteBridge(name))
                        } else {
                            (
                                NetState { phase: NetPhase::RemovingFiles, index: i, ..s },
                                NetStepV::RemoveFiles(network_path(dir, name), netdev_path(dir, name)),
                            )
                        }
                    },
                }
            } else if s.changes.len() > 0 {
                (NetState { phase: NetPhase::ReloadingZbus, index: i, ..s }, NetStepV::ReloadZbus)
            } else {
                (NetState { phase: NetPhase::Done, index: i, ..s }, NetStepV::Finish)
            }
        },
        NetPhase::RemovingFiles => {
            let name = change_name(cs[s.index]);
            (s, NetStepV::RemoveFiles(network_path(dir, name), netdev_path(dir, name)))
        },
        NetPhase::ReloadingNetworkctl => (s, NetStepV::ReloadNetworkctl),
        _ => (NetState { phase: NetPhase::Done, ..s }, NetStepV::Finish),
    }
}


/// The states an apply can be in.
pub open spec fn net_wf(cs: Seq<NetChange>, s: NetState) -> bool {
    &&& 0 <= s.index <= cs.len()
    &&& (s.phase is Writing ==> s.index < cs.len() && cs[s.index] is Configure)
    &&& (s.phase is DeletingBridge ==> s.index < cs.len() && cs[s.index] is Remove)
    &&& (s.phase is RemovingFiles ==> s.index < cs.len() && cs[s.index] is Remove)
    &&& (s.failure is Some ==> s.phase is Done)
}

/// The events an apply takes in each phase.
pub open spec fn net_event_fits(phase: NetPhase, ev: NetEvent) -> bool {
    match ev {
        NetEvent::Wrote(_) => phase is Writing,
        NetEvent::ConfigInvalid(_) => phase is Writing,
        NetEvent::BridgeDeleted(_) => phase is DeletingBridge,
        NetEvent::FilesRemoved => phase is RemovingFiles,
        NetEvent::ZbusReloaded(_) => phase is ReloadingZbus,
        NetEvent::NetworkctlReloaded(_) => phase is ReloadingNetworkctl,
    }
}

/// Two actions ask the same of the same interface.
pub open spec fn same_change(a: NetChange, b: NetChange) -> bool {
    &&& (a is Configure <==> b is Configure)
    &&& (a is Remove <==> b is Remove)
    &&& (a is Skip <==> b is Skip)
    &&& change_name(a) == change_name(b)
}

/// `next_change` stays in range and lands on an action that is not a no-op.
pub proof fn lemma_next_change(cs: Seq<NetChange>, from: int)
    requires
        0 <= from <= cs.len(),
    ensures
        from <= next_change(cs, from) <= cs.len(),
        next_change(cs, from) < cs.len() ==> !(cs[next_change(cs, from)] is Skip),
    decreases cs.len() - from,
{
    if from < cs.len() && cs[from] is Skip {
        lemma_next_change(cs, from + 1);
    }
}

/// The first position at or after `from` whose action is not a no-op.
fn next_change_at(cs: &Vec<NetChange>, from: usize) -> (r: usize)
    requires
        from <= cs@.len(),
    ensures
        r == next_change(cs@, from as int),
{
    let mut i = from;
    while i < cs.len()
        invariant
            from <= i <= cs@.len(),
            next_change(cs@, from as int) == next_change(cs@, i as int),
        decreases cs@.len() - i,
    {
        match &cs[i] {
            NetChange::Skip => {},
            _ => {
                return i;
            },
        }
        i = i + 1;
    }
    i
}

/// A text made of two parts.
fn joined2(a: &str, b: &str) -> (r: String)
    ensures
        r@ == a@ + b@,
{
    let mut s = owned(a);
    push_str(&mut s, b);
    s
}

/// A text made of four parts.
fn joined4(a: &str, b: &str, c: &str, d: &str) -> (r: String)
    ensures
        r@ == a@ + b@ + c@ + d@,
{
    let mut s = owned(a);
    push_str(&mut s, b);
    push_str(&mut s, c);
    push_str(&mut s, d);
    s
}

/// An apply of a network diff, one step at a time.
pub struct NetApplyRun {
    /// The directory of the networkd configuration files.
    pub config_dir: String,
    /// What each action of the diff asks, in order.
    pub todo: Vec<NetChange>,
    pub phase: NetPhase,
    pub index: usize,
    pub changes: Vec<String>,
    pub errors: Vec<String>,
    pub zbus_error: String,
    pub failure: Option<String>,
}

impl NetApplyRun {
    /// The state as values.
    pub open spec fn state(&self) -> NetState {
        NetState {
            phase: self.phase,
            index: self.index as int,
            changes: texts(self.changes@),
            errors: texts(self.errors@),
            zbus_error: self.zbus_error@,
            failure: match self.failure {
                Some(e) => Some(e@),
                None => None,
            },
        }
    }

    /// The run is in a state an apply can be in.
    pub open spec fn wf(&self) -> bool {
        net_wf(self.todo@, self.state()) && self.todo@.len() < usize::MAX
    }

    /// Moves on to the next thing to do.
    fn advance_net(&mut self) -> (r: NetStep)
        requires
            net_wf(old(self).todo@, old(self).state()),
            old(self).todo@.len() < usize::MAX,
            !(old(self).phase is Writing || old(self).phase is DeletingBridge || old(self).phase is ReloadingZbus),
        ensures
            (final(self).state(), r@) == net_advance(old(self).config_dir@, old(self).todo@, old(self).state()),
            final(self).config_dir == old(self).config_dir,
            final(self).todo == old(self).todo,
            net_wf(final(self).todo@, final(self).state()),
    {
        proof {
            lemma_next_change(self.todo@, self.index as int);
            reveal_strlit("ovsbr");
        }
        match self.phase {
            NetPhase::Next => {
                let i = next_change_at(&self.todo, self.index);
                self.index = i;
                if i < self.todo.len() {
                    match &self.todo[i] {
                        NetChange::Configure(_) => {
                            self.phase = NetPhase::Writing;
                            NetStep::WriteConfig(i)
                        },
                        NetChange::Remove(name) => {
                            if starts_with_text(name.as_str(), "ovsbr") {
                                self.phase = NetPhase::DeletingBridge;
                                NetStep::DeleteBridge(name.clone())
                            } else {
                                let net = joined4(self.config_dir.as_str(), "/10-", name.as_str(), ".network");
                                let dev = joined4(self.config_dir.as_str(), "/10-", name.as_str(), ".netdev");
                                self.phase = NetPhase::RemovingFiles;
                                NetStep::RemoveFiles(net, dev)
                            }
                        },
                        NetChange::Skip => {
                            self.phase = NetPhase::Done;
                            NetStep::Finish
                        },
                    }
                } else if self.changes.len() > 0 {
                    self.phase = NetPhase::ReloadingZbus;
                    NetStep::ReloadZbus
                } else {
                    self.phase = NetPhase::Done;
                    NetStep::Finish
                }
            },
            NetPhase::RemovingFiles => {
                match &self.todo[self.index] {
                    NetChange::Remove(name) => {
                        let net = joined4(self.config_dir.as_str(), "/10-", name.as_str(), ".network");
                        let dev = joined4(self.config_dir.as_str(), "/10-", name.as_str(), ".netdev");
                        NetStep::RemoveFiles(net, dev)
                    },
                    _ => NetStep::Finish,
                }
            },
            NetPhase::ReloadingNetworkctl => NetStep::ReloadNetworkctl,
            _ => {
                self.phase = NetPhase::Done;
                NetStep::Finish
            },
        }
    }

    /// The interface of the current action.
    fn name_at(&self) -> (r: String)
        requires
            self.index < self.todo@.len(),
        ensures
            r@ == change_name(self.todo@[self.index as int]),
    {
        match &self.todo[self.index] {
            NetChange::Configure(r) => r.clone(),
            NetChange::Remove(r) => r.clone(),
            NetChange::Skip => String::new(),
        }
    }

    /// Takes in what came of the last thing done.
    fn absorb_net(&mut self, ev: NetEvent)
        requires
            net_wf(old(self).todo@, old(self).state()),
            old(self).todo@.len() < usize::MAX,
            net_event_fits(old(self).phase, ev),
        ensures
            final(self).state() == net_absorb(old(self).todo@, old(self).state(), ev),
            final(self).config_dir == old(self).config_dir,
            final(self).todo == old(self).todo,
            net_wf(final(self).todo@, final(self).state()),
    {
        let ghost s = self.state();
        match ev {
            NetEvent::Wrote(r) => {
                let name = self.name_at();
                match r {
                    Ok(_) => {
                        self.changes.push(joined2("Configured interface: ", name.as_str()));
                    },
                    Err(e) => {
                        self.errors.push(joined4("Failed to configure ", name.as_str(), ": ", e.as_str()));
                    },
                }
                self.phase = NetPhase::Next;
                self.index = self.index + 1;
            },
            NetEvent::ConfigInvalid(e) => {
                self.phase = NetPhase::Done;
                self.failure = Some(e);
            },
            NetEvent::BridgeDeleted(r) => {
                let name = self.name_at();
                match r {
                    Ok(_) => {
                        self.changes.push(joined2("Deleted OVS bridge: ", name.as_str()));
                    },
                    Err(e) => {
                        self.errors.push(joined4("Failed to delete OVS bridge ", name.as_str(), ": ", e.as_str()));
                    },
                }
                self.phase = NetPhase::RemovingFiles;
            },
            NetEvent::FilesRemoved => {
                let name = self.name_at();
                self.changes.push(joined2("Removed interface config: ", name.as_str()));
                self.phase = NetPhase::Next;
                self.index = self.index + 1;
            },
            NetEvent::ZbusReloaded(r) => {
                match r {
                    Ok(_) => {
                        self.phase = NetPhase::Done;
                    },
                    Err(ZbusFailure::Reload(e)) => {
                        self.errors.push(joined2("Failed to reload networkd (zbus): ", e.as_str()));
                        self.phase = NetPhase::Done;
                    },
                    Err(ZbusFailure::Connect(e)) => {
                        self.zbus_error = e;
                        self.phase = NetPhase::ReloadingNetworkctl;
                    },
                }
            },
            NetEvent::NetworkctlReloaded(r) => {
                match r {
                    Ok(_) => {},
                    Err(e2) => {
                        let mut m = joined4("Failed to reload networkd (zbus=", self.zbus_error.as_str(), "): ", e2.as_str());
                        self.errors.push(m);
                    },
                }
                self.phase = NetPhase::Done;
            },
        }
        assert(self.state().changes =~= net_absorb(self.todo@, s, ev).changes);
        assert(self.state().errors =~= net_absorb(self.todo@, s, ev).errors);
    }
}


/// What a diff's action asks of the network plugin.
fn change_for(a: &StateAction) -> (r: NetChange)
    ensures
        same_change(r, change_of(*a)),
{
    match a {
        StateAction::Create { resource, .. } => NetChange::Configure(resource.clone()),
        StateAction::Modify { resource, .. } => NetChange::Configure(resource.clone()),
        StateAction::Delete { resource } => NetChange::Remove(resource.clone()),
        StateAction::NoOp { .. } => NetChange::Skip,
    }
}

/// The state an apply starts in.
pub open spec fn net_start_state() -> NetState {
    NetState {
        phase: NetPhase::Next,
        index: 0,
        changes: Seq::empty(),
        errors: Seq::empty(),
        zbus_error: Seq::empty(),
        failure: None,
    }
}

impl NetApplyRun {
    /// Starts applying the actions of a diff with configuration files in `config_dir`, and
    /// says what to do first.
    pub fn start(config_dir: &str, actions: &Vec<StateAction>) -> (r: (NetApplyRun, NetStep))
        requires
            actions@.len() < usize::MAX,
        ensures
            r.0.wf(),
            r.0.config_dir@ == config_dir@,
            r.0.todo@.len() == actions@.len(),
            forall|i: int| 0 <= i < actions@.len() ==> same_change(#[trigger] r.0.todo@[i], change_of(actions@[i])),
            (r.0.state(), r.1@) == net_advance(config_dir@, r.0.todo@, net_start_state()),
    {
        let mut todo: Vec<NetChange> = Vec::new();
        let mut i: usize = 0;
        while i < actions.len()
            invariant
                i <= actions@.len(),
                todo@.len() == i,
                forall|j: int| 0 <= j < i ==> same_change(#[trigger] todo@[j], change_of(actions@[j])),
            decreases actions@.len() - i,
        {
            todo.push(change_for(&actions[i]));
            i = i + 1;
        }
        let mut run = NetApplyRun {
            config_dir: owned(config_dir),
            todo,
            phase: NetPhase::Next,
            index: 0,
            changes: Vec::new(),
            errors: Vec::new(),
            zbus_error: String::new(),
            failure: None,
        };
        assert(run.state().changes =~= Seq::<Seq<char>>::empty());
        assert(run.state().errors =~= Seq::<Seq<char>>::empty());
        assert(run.state() == net_start_state());
        let a = run.advance_net();
        (run, a)
    }

    /// Takes in what came of the last thing asked for and says what to do next.
    pub fn step(&mut self, ev: NetEvent) -> (r: NetStep)
        requires
            old(self).wf(),
            net_event_fits(old(self).phase, ev),
        ensures
            final(self).wf(),
            final(self).config_dir == old(self).config_dir,
            final(self).todo == old(self).todo,
            (final(self).state(), r@) == net_advance(
                old(self).config_dir@,
                old(self).todo@,
                net_absorb(old(self).todo@, old(self).state(), ev),
            ),
    {
        self.absorb_net(ev);
        self.advance_net()
    }

    /// The outcome of a finished apply: the changes applied and the errors, successful when
    /// there are none; or the error of an invalid configuration.
    pub fn outcome(self) -> (r: Result<ApplyResult, String>)
        requires
            self.phase is Done,
        ensures
            match self.failure {
                Some(e) => r matches Err(x) && x@ == e@,
                None => r matches Ok(res) && res.success == (self.errors@.len() == 0)
                    && res.changes_applied@ == self.changes@ && res.errors@ == self.errors@
                    && res.checkpoint is None,
            },
    {
        match self.failure {
            Some(e) => Err(e),
            None => {
                let success = self.errors.len() == 0;
                Ok(ApplyResult { success, changes_applied: self.changes, errors: self.errors, checkpoint: None })
            },
        }
    }
}

impl crate::netconf::NetStatePlugin {
    /// Starts applying a diff with this plugin's configuration directory.
    pub fn begin_apply(&self, diff: &crate::state::StateDiff) -> (r: (NetApplyRun, NetStep))
        requires
            diff.actions@.len() < usize::MAX,
        ensures
            r.0.wf(),
            r.0.config_dir@ == self.config_dir@,
            r.0.todo@.len() == diff.actions@.len(),
            forall|i: int| 0 <= i < diff.actions@.len() ==> same_change(#[trigger] r.0.todo@[i], change_of(diff.actions@[i])),
            (r.0.state(), r.1@) == net_advance(self.config_dir@, r.0.todo@, net_start_state()),
    {
        NetApplyRun::start(self.config_dir.as_str(), &diff.actions)
    }
}

/// Networkd reloads exactly when the actions are done and something changed; only
/// interfaces named `ovsbr*` lose an OVS bridge.
pub proof fn law_net_reload_and_bridge_deletion(dir: Seq<char>, cs: Seq<NetChange>, s: NetState)
    requires
        net_wf(cs, s),
        s.phase is Next,
    ensures
        ({
            let (t, a) = net_advance(dir, cs, s);
            &&& (a is ReloadZbus <==> (next_change(cs, s.index) == cs.len() && s.changes.len() > 0))
            &&& (a matches NetStepV::DeleteBridge(b) ==> starts(b, "ovsbr"@))
        }),
{
    lemma_next_change(cs, s.index);
}
/// The successful answer to what a state waits for.
pub open spec fn success_event(s: NetState) -> NetEvent {
    match s.phase {
        NetPhase::Writing => NetEvent::Wrote(Ok(())),
        NetPhase::DeletingBridge => NetEvent::BridgeDeleted(Ok(())),
        NetPhase::ReloadingZbus => NetEvent::ZbusReloaded(Ok(())),
        NetPhase::ReloadingNetworkctl => NetEvent::NetworkctlReloaded(Ok(())),
        _ => NetEvent::FilesRemoved,
    }
}

/// An apply run in which every step succeeds, for at most `fuel` moves: from `Next` it moves
/// on to the next thing to do; in a waiting phase it takes in the successful answer.
pub open spec fn run_succeeding(dir: Seq<char>, cs: Seq<NetChange>, s: NetState, fuel: nat) -> NetState
    decreases fuel,
{
    if fuel == 0 || s.phase is Done {
        s
    } else if s.phase is Next {
        run_succeeding(dir, cs, net_advance(dir, cs, s).0, (fuel - 1) as nat)
    } else {
        run_succeeding(dir, cs, net_absorb(cs, s, success_event(s)), (fuel - 1) as nat)
    }
}

/// The changes a successful apply records for the actions `cs`, in order.
pub open spec fn change_messages(cs: Seq<NetChange>) -> Seq<Seq<char>>
    decreases cs.len(),
{
    if cs.len() == 0 {
        Seq::empty()
    } else {
        let rest = change_messages(cs.subrange(1, cs.len() as int));
        match cs[0] {
            NetChange::Configure(r) => seq!["Configured interface: "@ + r@] + rest,
            NetChange::Remove(r) => if starts(r@, "ovsbr"@) {
                seq!["Deleted OVS bridge: "@ + r@, "Removed interface config: "@ + r@] + rest
            } else {
                seq!["Removed interface config: "@ + r@] + rest
            },
            NetChange::Skip => rest,
        }
    }
}

proof fn lemma_skips_add_nothing(cs: Seq<NetChange>, from: int)
    requires
        0 <= from <= cs.len(),
    ensures
        change_messages(cs.subrange(from, cs.len() as int)) == change_messages(
            cs.subrange(next_change(cs, from), cs.len() as int),
        ),
    decreases cs.len() - from,
{
    if from < cs.len() && cs[from] is Skip {
        let t = cs.subrange(from, cs.len() as int);
        assert(t.subrange(1, t.len() as int) =~= cs.subrange(from + 1, cs.len() as int));
        lemma_skips_add_nothing(cs, from + 1);
    }
}

/// When every step succeeds, an apply that is about to take its next action at position
/// `s.index` records, in order, what each remaining action changes (the configuration of an
/// interface to create or modify; the OVS bridge of an `ovsbr*` interface to delete, then its
/// configuration files), reports no new error, and ends after reloading networkd when
/// anything changed at all.
pub proof fn law_succeeding_apply_records_every_change(dir: Seq<char>, cs: Seq<NetChange>, s: NetState, fuel: nat)
    requires
        net_wf(cs, s),
        s.phase is Next,
        s.failure is None,
        fuel >= 4 * (cs.len() - s.index) + 3,
    ensures
        ({
            let t = run_succeeding(dir, cs, s, fuel);
            &&& t.phase is Done
            &&& t.failure is None
            &&& t.changes == s.changes + change_messages(cs.subrange(s.index, cs.len() as int))
            &&& t.errors == s.errors
        }),
    decreases cs.len() - s.index,
{
    lemma_next_change(cs, s.index);
    lemma_skips_add_nothing(cs, s.index);
    let j = next_change(cs, s.index);
    let (a, _) = net_advance(dir, cs, s);
    let f1 = (fuel - 1) as nat;
    assert(run_succeeding(dir, cs, s, fuel) == run_succeeding(dir, cs, a, f1));
    if j < cs.len() {
        let tail = cs.subrange(j, cs.len() as int);
        let rest = tail.subrange(1, tail.len() as int);
        assert(rest =~= cs.subrange(j + 1, cs.len() as int));
        assert(tail[0] == cs[j]);
        let name = change_name(cs[j]);
        match cs[j] {
            NetChange::Configure(r) => {
                let b = net_absorb(cs, a, success_event(a));
                assert(b == NetState {
                    phase: NetPhase::Next,
                    index: j + 1,
                    changes: s.changes.push("Configured interface: "@ + r@),
                    ..s
                });
                assert(run_succeeding(dir, cs, a, f1) == run_succeeding(dir, cs, b, (f1 - 1) as nat));
                law_succeeding_apply_records_every_change(dir, cs, b, (f1 - 1) as nat);
                assert(s.changes.push("Configured interface: "@ + r@) + change_messages(rest) =~= s.changes
                    + (seq!["Configured interface: "@ + r@] + change_messages(rest)));
            },
            NetChange::Remove(r) => {
                if starts(name, "ovsbr"@) {
                    let b = net_absorb(cs, a, success_event(a));
                    assert(b == NetState {
                        phase: NetPhase::RemovingFiles,
                        index: j,
                        changes: s.changes.push("Deleted OVS bridge: "@ + r@),
                        ..s
                    });
                    let c = net_absorb(cs, b, success_event(b));
                    assert(c == NetState {
                        phase: NetPhase::Next,
                        index: j + 1,
                        changes: s.changes.push("Deleted OVS bridge: "@ + r@).push("Removed interface config: "@ + r@),
                        ..s
                    });
                    assert(run_succeeding(dir, cs, a, f1) == run_succeeding(dir, cs, b, (f1 - 1) as nat));
                    assert(run_succeeding(dir, cs, b, (f1 - 1) as nat) == run_succeeding(dir, cs, c, (f1 - 2) as nat));
                    law_succeeding_apply_records_every_change(dir, cs, c, (f1 - 2) as nat);
                    assert(s.changes.push("Deleted OVS bridge: "@ + r@).push("Removed interface config: "@ + r@)
                        + change_messages(rest) =~= s.changes + (seq![
                        "Deleted OVS bridge: "@ + r@,
                        "Removed interface config: "@ + r@,
                    ] + change_messages(rest)));
                } else {
                    let c = net_absorb(cs, a, success_event(a));
                    assert(c == NetState {
                        phase: NetPhase::Next,
                        index: j + 1,
                        changes: s.changes.push("Removed interface config: "@ + r@),
                        ..s
                    });
                    assert(run_succeeding(dir, cs, a, f1) == run_succeeding(dir, cs, c, (f1 - 1) as nat));
                    law_succeeding_apply_records_every_change(dir, cs, c, (f1 - 1) as nat);
                    assert(s.changes.push("Removed interface config: "@ + r@) + change_messages(rest) =~= s.changes
                        + (seq!["Removed interface config: "@ + r@] + change_messages(rest)));
                }
            },
            NetChange::Skip => {},
        }
    } else {
        assert(cs.subrange(j, cs.len() as int) =~= Seq::<NetChange>::empty());
        assert(change_messages(Seq::<NetChange>::empty()) =~= Seq::<Seq<char>>::empty());
        if s.changes.len() > 0 {
            let b = net_absorb(cs, a, success_event(a));
            assert(run_succeeding(dir, cs, a, f1) == run_succeeding(dir, cs, b, (f1 - 1) as nat));
            assert(b.phase is Done);
        }
        assert(s.changes + Seq::<Seq<char>>::empty() =~= s.changes);
    }
}

/// An apply whose every step succeeds records what each action of the diff changes, in
/// order, with no error.
pub proof fn law_succeeding_apply_from_start(dir: Seq<char>, cs: Seq<NetChange>)
    ensures
        ({
            let t = run_succeeding(dir, cs, net_start_state(), 4 * cs.len() + 3);
            &&& t.phase is Done
            &&& t.failure is None
            &&& t.changes == change_messages(cs)
            &&& t.errors.len() == 0
        }),
{
    law_succeeding_apply_records_every_change(dir, cs, net_start_state(), 4 * cs.len() + 3);
    assert(cs.subrange(0, cs.len() as int) =~= cs);
    assert(Seq::<Seq<char>>::empty() + change_messages(cs) =~= change_messages(cs));
}

} // verus!
