//! Declarative state across plugins: what a plugin reports and applies (checkpoints,
//! diffs, results), and the decisions of an atomic apply: checkpoint every affected plugin,
//! work out the changes, apply them, verify, and roll back in reverse order on failure.
use vstd::prelude::*;
use crate::text::{owned, list_contains, texts, same_text};
use crate::json::{Json, json_same, copy_json, same_json};
use crate::text::{push_str, push_utf8};
use crate::digest::{md5, md5_of, to_hex, hex_lower};

verus! {

/// A plugin's saved state, to roll back to.
pub struct Checkpoint {
    pub id: String,
    pub plugin: String,
    pub timestamp: i64,
    pub state_snapshot: Json,
    pub backend_checkpoint: Option<Json>,
}

/// What applying a plugin's changes did.
pub struct ApplyResult {
    pub success: bool,
    pub changes_applied: Vec<String>,
    pub errors: Vec<String>,
    pub checkpoint: Option<Checkpoint>,
}

/// One change to a resource.
pub enum StateAction {
    Create { resource: String, config: Json },
    Modify { resource: String, changes: Json },
    Delete { resource: String },
    NoOp { resource: String },
}

/// When and between which states a diff was worked out.
pub struct DiffMetadata {
    pub timestamp: i64,
    pub current_hash: String,
    pub desired_hash: String,
}

/// The hash a diff records of a state's JSON text: the lowercase hex of its MD5 digest.
pub open spec fn state_hash(text: Seq<char>) -> Seq<char> {
    hex_lower(md5_of(vstd::utf8::encode_utf8(text)))
}

/// The metadata of a diff made at `timestamp` between the states whose JSON texts are
/// `current` and `desired`.
pub fn diff_metadata(timestamp: i64, current: &str, desired: &str) -> (r: DiffMetadata)
    ensures
        r.timestamp == timestamp,
        r.current_hash@ == state_hash(current@),
        r.desired_hash@ == state_hash(desired@),
{
    let mut cb: Vec<u8> = Vec::new();
    push_utf8(&mut cb, current);
    let mut db: Vec<u8> = Vec::new();
    push_utf8(&mut db, desired);
    assert(cb@ =~= vstd::utf8::encode_utf8(current@));
    assert(db@ =~= vstd::utf8::encode_utf8(desired@));
    let ch = md5(cb.as_slice());
    let dh = md5(db.as_slice());
    DiffMetadata { timestamp, current_hash: to_hex(ch.as_slice()), desired_hash: to_hex(dh.as_slice()) }
}

/// The changes that bring one plugin from its current to its desired state.
pub struct StateDiff {
    pub plugin: String,
    pub actions: Vec<StateAction>,
    pub metadata: DiffMetadata,
}

/// The desired state: per plugin, its desired configuration.
pub struct DesiredState {
    pub version: u32,
    pub plugins: Vec<(String, Json)>,
}

/// The current state: per plugin, its reported configuration.
pub struct CurrentState {
    pub plugins: Vec<(String, Json)>,
}

/// The report of an apply.
pub struct ApplyReport {
    pub success: bool,
    pub results: Vec<ApplyResult>,
    pub checkpoints: Vec<(String, Checkpoint)>,
}


/// Where an atomic apply stands.
#[derive(Clone, Copy, PartialEq, Eq, Structural)]
pub enum ApplyStage {
    /// Saving a checkpoint of each affected plugin.
    Checkpointing,
    /// Asking an affected plugin for its current state.
    Querying,
    /// Asking the plugin for the diff from its current state.
    Diffing,
    /// Applying the diffs that hold changes.
    Applying,
    /// Asking each affected plugin whether it reached its desired state.
    Verifying,
    /// Restoring the checkpoints, latest first.
    RollingBack,
    /// Done; the outcome is ready.
    Finished,
}

/// What the apply asks to be done next.
pub enum ApplyAction {
    /// Save a checkpoint of the desired plugin at this position.
    CreateCheckpoint(usize),
    /// Query the current state of the desired plugin at this position.
    QueryCurrent(usize),
    /// Work out the diff of the desired plugin at this position from this current state.
    CalculateDiff(usize, Json),
    /// Apply the diff at this position.
    ApplyDiff(usize),
    /// Verify the desired plugin at this position.
    VerifyState(usize),
    /// Roll back to the checkpoint at this position.
    Rollback(usize),
    /// Stop; the outcome is ready.
    Finish,
}

/// What came of the last thing done.
pub enum ApplyEvent {
    CheckpointDone(Result<Checkpoint, String>),
    CurrentDone(Result<Json, String>),
    DiffDone(Result<StateDiff, String>),
    ApplyDone(Result<ApplyResult, String>),
    VerifyDone(Result<bool, String>),
    RollbackDone,
}

/// The state of an apply, as values.
pub ghost struct ApplyState {
    pub stage: ApplyStage,
    pub index: int,
    pub checkpoints: Seq<(Seq<char>, Checkpoint)>,
    pub diffs: Seq<StateDiff>,
    pub results: Seq<ApplyResult>,
    pub current: Option<Json>,
    pub error: Option<Seq<char>>,
}

/// The first position at or after `from` whose desired plugin is registered (the number of
/// desired plugins when there is none).
pub open spec fn next_reg(names: Seq<Seq<char>>, regs: Seq<Seq<char>>, from: int) -> int
    decreases names.len() - from,
{
    if from >= names.len() {
        names.len() as int
    } else if regs.contains(names[from]) {
        from
    } else {
        next_reg(names, regs, from + 1)
    }
}

/// The message of a failed verification.
pub open spec fn verification_failed() -> Seq<char> {
    "State verification failed"@
}

/// Takes in what came of the last thing done.
pub open spec fn absorb(names: Seq<Seq<char>>, s: ApplyState, ev: ApplyEvent) -> ApplyState {
    match (s.stage, ev) {
        (ApplyStage::Checkpointing, ApplyEvent::CheckpointDone(r)) => ApplyState {
            index: s.index + 1,
            checkpoints: match r {
                Ok(cp) => s.checkpoints.push((names[s.index], cp)),
                Err(_) => s.checkpoints,
            },
            ..s
        },
        (ApplyStage::Querying, ApplyEvent::CurrentDone(r)) => match r {
            Ok(j) => ApplyState { stage: ApplyStage::Diffing, current: Some(j), ..s },
            Err(e) => ApplyState { stage: ApplyStage::Finished, error: Some(e@), ..s },
        },
        (ApplyStage::Diffing, ApplyEvent::DiffDone(r)) => match r {
            Ok(d) => ApplyState {
                stage: ApplyStage::Querying,
                index: s.index + 1,
                diffs: if d.actions@.len() > 0 { s.diffs.push(d) } else { s.diffs },
                current: None,
                ..s
            },
            Err(e) => ApplyState { stage: ApplyStage::Finished, error: Some(e@), current: None, ..s },
        },
        (ApplyStage::Applying, ApplyEvent::ApplyDone(r)) => match r {
            Ok(res) => ApplyState { index: s.index + 1, results: s.results.push(res), ..s },
            Err(e) => ApplyState {
                stage: ApplyStage::RollingBack,
                index: s.checkpoints.len() as int,
                error: Some(e@),
                ..s
            },
        },
        (ApplyStage::Verifying, ApplyEvent::VerifyDone(r)) => match r {
            Ok(true) => ApplyState { index: s.index + 1, ..s },
            Ok(false) => ApplyState {
                stage: ApplyStage::RollingBack,
                index: s.checkpoints.len() as int,
                error: Some(verification_failed()),
                ..s
            },
            Err(e) => ApplyState { stage: ApplyStage::Finished, error: Some(e@), ..s },
        },
        (ApplyStage::RollingBack, ApplyEvent::RollbackDone) => ApplyState { index: s.index - 1, ..s },
        _ => s,
    }
}

/// Finishing.
pub open spec fn adv_finish(s: ApplyState) -> (ApplyState, ApplyAction) {
    (ApplyState { stage: ApplyStage::Finished, ..s }, ApplyAction::Finish)
}

/// Verifying the next registered desired plugin, or finishing.
pub open spec fn adv_verify(names: Seq<Seq<char>>, regs: Seq<Seq<char>>, s: ApplyState) -> (ApplyState, ApplyAction) {
    let i = next_reg(names, regs, s.index);
    if i < names.len() {
        (ApplyState { stage: ApplyStage::Verifying, index: i, ..s }, ApplyAction::VerifyState(i as usize))
    } else {
        adv_finish(ApplyState { index: i, ..s })
    }
}

/// Applying the next diff, or verifying.
pub open spec fn adv_apply(names: Seq<Seq<char>>, regs: Seq<Seq<char>>, s: ApplyState) -> (ApplyState, ApplyAction) {
    if s.index < s.diffs.len() {
        (ApplyState { stage: ApplyStage::Applying, ..s }, ApplyAction::ApplyDiff(s.index as usize))
    } else {
        adv_verify(names, regs, ApplyState { stage: ApplyStage::Verifying, index: 0, ..s })
    }
}

/// Querying the next registered desired plugin; when none is left, finishing if no diff
/// holds changes, else applying.
pub open spec fn adv_query(names: Seq<Seq<char>>, regs: Seq<Seq<char>>, s: ApplyState) -> (ApplyState, ApplyAction) {
    let i = next_reg(names, regs, s.index);
    if i < names.len() {
        (ApplyState { stage: ApplyStage::Querying, index: i, ..s }, ApplyAction::QueryCurrent(i as usize))
    } else if s.diffs.len() == 0 {
        adv_finish(ApplyState { index: i, ..s })
    } else {
        adv_apply(names, regs, ApplyState { stage: ApplyStage::Applying, index: 0, ..s })
    }
}

/// Checkpointing the next registered desired plugin, or querying.
pub open spec fn adv_checkpoint(names: Seq<Seq<char>>, regs: Seq<Seq<char>>, s: ApplyState) -> (ApplyState, ApplyAction) {
    let i = next_reg(names, regs, s.index);
    if i < names.len() {
        (ApplyState { stage: ApplyStage::Checkpointing, index: i, ..s }, ApplyAction::CreateCheckpoint(i as usize))
    } else {
        adv_query(names, regs, ApplyState { stage: ApplyStage::Querying, index: 0, ..s })
    }
}

/// The next thing to do, and the state it leaves.
pub open spec fn advance(names: Seq<Seq<char>>, regs: Seq<Seq<char>>, s: ApplyState) -> (ApplyState, ApplyAction) {
    match s.stage {
        ApplyStage::Checkpointing => adv_checkpoint(names, regs, s),
        ApplyStage::Querying => adv_query(names, regs, s),
        ApplyStage::Diffing => (
            ApplyState { current: None, ..s },
            ApplyAction::CalculateDiff(s.index as usize, s.current->0),
        ),
        ApplyStage::Applying => adv_apply(names, regs, s),
        ApplyStage::Verifying => adv_verify(names, regs, s),
        ApplyStage::RollingBack => if s.index > 0 {
            (s, ApplyAction::Rollback((s.index - 1) as usize))
        } else {
            adv_finish(s)
        },
        ApplyStage::Finished => adv_finish(s),
    }
}

/// One step: take in the event, then move on to the next thing to do.
pub open spec fn apply_step(names: Seq<Seq<char>>, regs: Seq<Seq<char>>, s: ApplyState, ev: ApplyEvent) -> (ApplyState, ApplyAction) {
    advance(names, regs, absorb(names, s, ev))
}

/// The states an apply can be in between steps.
pub open spec fn state_wf(names: Seq<Seq<char>>, regs: Seq<Seq<char>>, s: ApplyState) -> bool {
    &&& 0 <= s.index
    &&& forall|i: int| 0 <= i < s.diffs.len() ==> (#[trigger] s.diffs[i]).actions@.len() > 0
    &&& forall|i: int| 0 <= i < s.checkpoints.len() ==> regs.contains((#[trigger] s.checkpoints[i]).0)
    &&& s.results.len() <= s.diffs.len()
    &&& (s.stage is Checkpointing ==> s.index < names.len() && regs.contains(names[s.index]) && s.diffs.len() == 0
        && s.results.len() == 0)
    &&& (s.stage is Querying ==> s.index < names.len() && regs.contains(names[s.index]) && s.results.len() == 0)
    &&& (s.stage is Diffing ==> s.index < names.len() && regs.contains(names[s.index]) && s.results.len() == 0)
    &&& (s.stage is Applying ==> s.index < s.diffs.len() && s.results.len() == s.index)
    &&& (s.stage is Verifying ==> s.index < names.len() && regs.contains(names[s.index]) && s.results.len()
        == s.diffs.len())
    &&& (s.stage is RollingBack ==> 0 < s.index <= s.checkpoints.len() && s.error is Some)
    &&& (s.stage is Finished && s.error is None ==> s.results.len() == s.diffs.len())
    &&& (s.stage !is RollingBack && s.stage !is Finished ==> s.error is None)
    &&& s.current is None
}

/// The states an apply can be in after taking in an event, before moving on.
pub open spec fn absorbed_wf(names: Seq<Seq<char>>, regs: Seq<Seq<char>>, s: ApplyState) -> bool {
    &&& 0 <= s.index
    &&& forall|i: int| 0 <= i < s.diffs.len() ==> (#[trigger] s.diffs[i]).actions@.len() > 0
    &&& forall|i: int| 0 <= i < s.checkpoints.len() ==> regs.contains((#[trigger] s.checkpoints[i]).0)
    &&& s.results.len() <= s.diffs.len()
    &&& (s.stage is Checkpointing ==> s.index <= names.len() && s.diffs.len() == 0 && s.results.len() == 0)
    &&& (s.stage is Querying ==> s.index <= names.len() && s.results.len() == 0)
    &&& (s.stage is Diffing ==> s.index < names.len() && regs.contains(names[s.index]) && s.current is Some
        && s.results.len() == 0)
    &&& (s.stage is Applying ==> s.index <= s.diffs.len() && s.results.len() == s.index)
    &&& (s.stage is Verifying ==> s.index <= names.len() && s.results.len() == s.diffs.len())
    &&& (s.stage is RollingBack ==> s.index <= s.checkpoints.len() && s.error is Some)
    &&& (s.stage is Finished && s.error is None ==> s.results.len() == s.diffs.len())
    &&& (s.stage !is RollingBack && s.stage !is Finished ==> s.error is None)
    &&& (s.stage !is Diffing ==> s.current is None)
}

/// `next_reg` stays in range and lands on a registered plugin when it finds one.
pub proof fn lemma_next_reg(names: Seq<Seq<char>>, regs: Seq<Seq<char>>, from: int)
    requires
        0 <= from <= names.len(),
    ensures
        from <= next_reg(names, regs, from) <= names.len(),
        next_reg(names, regs, from) < names.len() ==> regs.contains(names[next_reg(names, regs, from)]),
    decreases names.len() - from,
{
    if from < names.len() && !regs.contains(names[from]) {
        lemma_next_reg(names, regs, from + 1);
    }
}

/// Taking in a fitting event leaves a state that moving on can start from.
pub proof fn lemma_absorb_wf(names: Seq<Seq<char>>, regs: Seq<Seq<char>>, s: ApplyState, ev: ApplyEvent)
    requires
        state_wf(names, regs, s),
        event_fits(regs, s.stage, ev),
    ensures
        absorbed_wf(names, regs, absorb(names, s, ev)),
{
}

/// Moving on from a state that has taken in an event leaves a state an apply can be in.
pub proof fn lemma_advance_wf(names: Seq<Seq<char>>, regs: Seq<Seq<char>>, s: ApplyState)
    requires
        absorbed_wf(names, regs, s),
    ensures
        state_wf(names, regs, advance(names, regs, s).0),
{
    lemma_next_reg(names, regs, 0);
    if s.index <= names.len() {
        lemma_next_reg(names, regs, s.index);
    }
}

/// The events an apply takes at its stage: the outcome of the thing it asked for, with a
/// diff that holds changes naming a registered plugin.
pub open spec fn event_fits(regs: Seq<Seq<char>>, stage: ApplyStage, ev: ApplyEvent) -> bool {
    match ev {
        ApplyEvent::CheckpointDone(_) => stage is Checkpointing,
        ApplyEvent::CurrentDone(_) => stage is Querying,
        ApplyEvent::DiffDone(r) => stage is Diffing && (r matches Ok(d) ==> (d.actions@.len() > 0 ==> regs.contains(d.plugin@))),
        ApplyEvent::ApplyDone(_) => stage is Applying,
        ApplyEvent::VerifyDone(_) => stage is Verifying,
        ApplyEvent::RollbackDone => stage is RollingBack,
    }
}


/// The first position at or after `from` whose name `regs` holds.
fn next_registered(names: &Vec<String>, regs: &Vec<String>, from: usize) -> (r: usize)
    requires
        from <= names@.len(),
    ensures
        r == next_reg(texts(names@), texts(regs@), from as int),
        from <= r <= names@.len(),
{
    let mut i = from;
    while i < names.len()
        invariant
            from <= i <= names@.len(),
            next_reg(texts(names@), texts(regs@), from as int) == next_reg(texts(names@), texts(regs@), i as int),
        decreases names@.len() - i,
    {
        let found = list_contains(regs, names[i].as_str());
        proof {
            if found {
                let j = choose|j: int| 0 <= j < regs@.len() && #[trigger] regs@[j]@ == names@[i as int]@;
                assert(texts(regs@)[j] == texts(names@)[i as int]);
            } else {
                assert forall|j: int| 0 <= j < texts(regs@).len() implies texts(regs@)[j] != texts(names@)[i as int] by {
                    assert(texts(regs@)[j] == regs@[j]@);
                }
            }
        }
        if found {
            return i;
        }
        i = i + 1;
    }
    i
}

/// An atomic apply across plugins, one step at a time: each step takes what came of the
/// last thing asked for and says what to do next.
pub struct ApplyRun {
    /// The plugins of the desired state, in order.
    pub desired_names: Vec<String>,
    /// The registered plugins.
    pub registered: Vec<String>,
    pub stage: ApplyStage,
    pub index: usize,
    pub checkpoints: Vec<(String, Checkpoint)>,
    pub diffs: Vec<StateDiff>,
    pub results: Vec<ApplyResult>,
    pub current: Option<Json>,
    pub error: Option<String>,
}

impl ApplyRun {
    /// The names of the desired plugins.
    pub open spec fn names(&self) -> Seq<Seq<char>> {
        texts(self.desired_names@)
    }

    /// The names of the registered plugins.
    pub open spec fn regs(&self) -> Seq<Seq<char>> {
        texts(self.registered@)
    }

    /// The state as values.
    pub open spec fn state(&self) -> ApplyState {
        ApplyState {
            stage: self.stage,
            index: self.index as int,
            checkpoints: self.checkpoints@.map_values(|c: (String, Checkpoint)| (c.0@, c.1)),
            diffs: self.diffs@,
            results: self.results@,
            current: self.current,
            error: match self.error {
                Some(e) => Some(e@),
                None => None,
            },
        }
    }

    /// The run is in a state an apply can be in.
    pub open spec fn wf(&self) -> bool {
        &&& state_wf(self.names(), self.regs(), self.state())
        &&& self.desired_names@.len() < usize::MAX
    }
}


impl ApplyRun {
    /// Finishes.
    fn finish(&mut self) -> (r: ApplyAction)
        ensures
            (final(self).state(), r) == adv_finish(old(self).state()),
            final(self).desired_names == old(self).desired_names,
            final(self).registered == old(self).registered,
    {
        self.stage = ApplyStage::Finished;
        ApplyAction::Finish
    }

    /// Verifies the next registered desired plugin, or finishes.
    fn verify_next(&mut self) -> (r: ApplyAction)
        requires
            old(self).index <= old(self).desired_names@.len(),
        ensures
            (final(self).state(), r) == adv_verify(old(self).names(), old(self).regs(), old(self).state()),
            final(self).desired_names == old(self).desired_names,
            final(self).registered == old(self).registered,
    {
        let i = next_registered(&self.desired_names, &self.registered, self.index);
        if i < self.desired_names.len() {
            self.stage = ApplyStage::Verifying;
            self.index = i;
            ApplyAction::VerifyState(i)
        } else {
            self.index = i;
            self.finish()
        }
    }

    /// Applies the next diff, or verifies.
    fn apply_next(&mut self) -> (r: ApplyAction)
        ensures
            (final(self).state(), r) == adv_apply(old(self).names(), old(self).regs(), old(self).state()),
            final(self).desired_names == old(self).desired_names,
            final(self).registered == old(self).registered,
    {
        if self.index < self.diffs.len() {
            self.stage = ApplyStage::Applying;
            ApplyAction::ApplyDiff(self.index)
        } else {
            self.stage = ApplyStage::Verifying;
            self.index = 0;
            self.verify_next()
        }
    }

    /// Queries the next registered desired plugin; when none is left, finishes if no
    /// diff holds changes, else applies.
    fn query_next(&mut self) -> (r: ApplyAction)
        requires
            old(self).index <= old(self).desired_names@.len(),
        ensures
            (final(self).state(), r) == adv_query(old(self).names(), old(self).regs(), old(self).state()),
            final(self).desired_names == old(self).desired_names,
            final(self).registered == old(self).registered,
    {
        let i = next_registered(&self.desired_names, &self.registered, self.index);
        if i < self.desired_names.len() {
            self.stage = ApplyStage::Querying;
            self.index = i;
            ApplyAction::QueryCurrent(i)
        } else if self.diffs.len() == 0 {
            self.index = i;
            self.finish()
        } else {
            self.stage = ApplyStage::Applying;
            self.index = 0;
            self.apply_next()
        }
    }

    /// Checkpoints the next registered desired plugin, or queries.
    fn checkpoint_next(&mut self) -> (r: ApplyAction)
        requires
            old(self).index <= old(self).desired_names@.len(),
        ensures
            (final(self).state(), r) == adv_checkpoint(old(self).names(), old(self).regs(), old(self).state()),
            final(self).desired_names == old(self).desired_names,
            final(self).registered == old(self).registered,
    {
        let i = next_registered(&self.desired_names, &self.registered, self.index);
        if i < self.desired_names.len() {
            self.stage = ApplyStage::Checkpointing;
            self.index = i;
            ApplyAction::CreateCheckpoint(i)
        } else {
            self.stage = ApplyStage::Querying;
            self.index = 0;
            self.query_next()
        }
    }

    /// Moves on to the next thing to do.
    fn advance_run(&mut self) -> (r: ApplyAction)
        requires
            absorbed_wf(old(self).names(), old(self).regs(), old(self).state()),
        ensures
            (final(self).state(), r) == advance(old(self).names(), old(self).regs(), old(self).state()),
            final(self).desired_names == old(self).desired_names,
            final(self).registered == old(self).registered,
    {
        match self.stage {
            ApplyStage::Checkpointing => self.checkpoint_next(),
            ApplyStage::Querying => self.query_next(),
            ApplyStage::Diffing => {
                let current = self.current.take();
                match current {
                    Some(j) => ApplyAction::CalculateDiff(self.index, j),
                    None => ApplyAction::Finish,
                }
            },
            ApplyStage::Applying => self.apply_next(),
            ApplyStage::Verifying => self.verify_next(),
            ApplyStage::RollingBack => {
                if self.index > 0 {
                    ApplyAction::Rollback(self.index - 1)
                } else {
                    self.finish()
                }
            },
            ApplyStage::Finished => self.finish(),
        }
    }

    /// Takes in what came of the last thing done.
    fn absorb_event(&mut self, ev: ApplyEvent)
        requires
            state_wf(old(self).names(), old(self).regs(), old(self).state()),
            event_fits(old(self).regs(), old(self).stage, ev),
            old(self).desired_names@.len() < usize::MAX,
        ensures
            final(self).state() == absorb(old(self).names(), old(self).state(), ev),
            final(self).desired_names == old(self).desired_names,
            final(self).registered == old(self).registered,
    {
        let ghost s = self.state();
        match ev {
            ApplyEvent::CheckpointDone(r) => {
                match r {
                    Ok(cp) => {
                        let name = self.desired_names[self.index].clone();
                        self.checkpoints.push((name, cp));
                    },
                    Err(_) => {},
                }
                self.index = self.index + 1;
                assert(self.state().checkpoints =~= absorb(self.names(), s, ev).checkpoints);
            },
            ApplyEvent::CurrentDone(r) => {
                match r {
                    Ok(j) => {
                        self.stage = ApplyStage::Diffing;
                        self.current = Some(j);
                    },
                    Err(e) => {
                        self.stage = ApplyStage::Finished;
                        self.error = Some(e);
                    },
                }
            },
            ApplyEvent::DiffDone(r) => {
                match r {
                    Ok(d) => {
                        if d.actions.len() > 0 {
                            self.diffs.push(d);
                        }
                        self.stage = ApplyStage::Querying;
                        self.index = self.index + 1;
                        self.current = None;
                    },
                    Err(e) => {
                        self.stage = ApplyStage::Finished;
                        self.error = Some(e);
                        self.current = None;
                    },
                }
            },
            ApplyEvent::ApplyDone(r) => {
                match r {
                    Ok(res) => {
                        let n = self.diffs.len();
                        assert(self.index < n);
                        self.results.push(res);
                        self.index = self.index + 1;
                    },
                    Err(e) => {
                        self.stage = ApplyStage::RollingBack;
                        self.index = self.checkpoints.len();
                        self.error = Some(e);
                    },
                }
            },
            ApplyEvent::VerifyDone(r) => {
                match r {
                    Ok(true) => {
                        self.index = self.index + 1;
                    },
                    Ok(false) => {
                        self.stage = ApplyStage::RollingBack;
                        self.index = self.checkpoints.len();
                        self.error = Some(owned("State verification failed"));
                    },
                    Err(e) => {
                        self.stage = ApplyStage::Finished;
                        self.error = Some(e);
                    },
                }
            },
            ApplyEvent::RollbackDone => {
                self.index = self.index - 1;
            },
        }
    }

    /// Starts an apply of the desired plugins `desired_names` with the plugins `registered`
    /// registered, and says what to do first.
    pub fn start(desired_names: Vec<String>, registered: Vec<String>) -> (r: (ApplyRun, ApplyAction))
        requires
            desired_names@.len() < usize::MAX,
        ensures
            r.0.wf(),
            r.0.desired_names == desired_names,
            r.0.registered == registered,
            (r.0.state(), r.1) == advance(
                texts(desired_names@),
                texts(registered@),
                ApplyState {
                    stage: ApplyStage::Checkpointing,
                    index: 0,
                    checkpoints: Seq::empty(),
                    diffs: Seq::empty(),
                    results: Seq::empty(),
                    current: None,
                    error: None,
                },
            ),
    {
        let mut run = ApplyRun {
            desired_names,
            registered,
            stage: ApplyStage::Checkpointing,
            index: 0,
            checkpoints: Vec::new(),
            diffs: Vec::new(),
            results: Vec::new(),
            current: None,
            error: None,
        };
        assert(run.state().checkpoints =~= Seq::<(Seq<char>, Checkpoint)>::empty());
        proof {
            lemma_advance_wf(run.names(), run.regs(), run.state());
        }
        let a = run.advance_run();
        (run, a)
    }

    /// Takes in what came of the last thing asked for and says what to do next.
    pub fn step(&mut self, ev: ApplyEvent) -> (r: ApplyAction)
        requires
            old(self).wf(),
            event_fits(old(self).regs(), old(self).stage, ev),
        ensures
            final(self).wf(),
            final(self).desired_names == old(self).desired_names,
            final(self).registered == old(self).registered,
            (final(self).state(), r) == apply_step(old(self).names(), old(self).regs(), old(self).state(), ev),
    {
        proof {
            lemma_absorb_wf(self.names(), self.regs(), self.state(), ev);
        }
        self.absorb_event(ev);
        proof {
            lemma_advance_wf(self.names(), self.regs(), self.state());
        }
        self.advance_run()
    }

    /// The outcome of a finished apply: the report, or the error it ended with.
    pub fn outcome(self) -> (r: Result<ApplyReport, String>)
        requires
            self.stage is Finished,
        ensures
            match self.error {
                Some(e) => r matches Err(x) && x@ == e@,
                None => r matches Ok(rep) && rep.success && rep.results@ == self.results@
                    && rep.checkpoints@ == self.checkpoints@,
            },
    {
        match self.error {
            Some(e) => Err(e),
            None => Ok(ApplyReport { success: true, results: self.results, checkpoints: self.checkpoints }),
        }
    }
}

/// A failed apply rolls back every checkpoint, the latest first, and the run ends with
/// the apply's error.
pub proof fn law_apply_failure_rolls_back(names: Seq<Seq<char>>, regs: Seq<Seq<char>>, s: ApplyState, e: String)
    requires
        state_wf(names, regs, s),
        s.stage is Applying,
    ensures
        ({
            let (t, a) = apply_step(names, regs, s, ApplyEvent::ApplyDone(Err(e)));
            &&& t.error == Some(e@)
            &&& t.checkpoints == s.checkpoints
            &&& if s.checkpoints.len() > 0 {
                t.stage is RollingBack && t.index == s.checkpoints.len() && a == ApplyAction::Rollback(
                    (s.checkpoints.len() - 1) as usize,
                )
            } else {
                t.stage is Finished && a == ApplyAction::Finish
            }
        }),
{
}

/// A failed verification rolls back every checkpoint, the latest first, and the run ends
/// with "State verification failed".
pub proof fn law_verify_failure_rolls_back(names: Seq<Seq<char>>, regs: Seq<Seq<char>>, s: ApplyState)
    requires
        state_wf(names, regs, s),
        s.stage is Verifying,
    ensures
        ({
            let (t, a) = apply_step(names, regs, s, ApplyEvent::VerifyDone(Ok(false)));
            &&& t.error == Some(verification_failed())
            &&& t.results == s.results
            &&& if s.checkpoints.len() > 0 {
                t.stage is RollingBack && t.index == s.checkpoints.len() && a == ApplyAction::Rollback(
                    (s.checkpoints.len() - 1) as usize,
                )
            } else {
                t.stage is Finished && a == ApplyAction::Finish
            }
        }),
{
}

/// Rolling back goes through the checkpoints from the latest to the first, then finishes.
pub proof fn law_rollback_in_reverse(names: Seq<Seq<char>>, regs: Seq<Seq<char>>, s: ApplyState)
    requires
        state_wf(names, regs, s),
        s.stage is RollingBack,
    ensures
        ({
            let (t, a) = apply_step(names, regs, s, ApplyEvent::RollbackDone);
            &&& t.error == s.error
            &&& if s.index > 1 {
                t.stage is RollingBack && a == ApplyAction::Rollback((s.index - 2) as usize)
            } else {
                t.stage is Finished && a == ApplyAction::Finish
            }
        }),
{
}

/// An error while working out a diff or verifying ends the run with that error, without
/// rolling back.
pub proof fn law_query_errors_end_without_rollback(names: Seq<Seq<char>>, regs: Seq<Seq<char>>, s: ApplyState, ev: ApplyEvent)
    requires
        state_wf(names, regs, s),
        event_fits(regs, s.stage, ev),
        ev matches ApplyEvent::CurrentDone(Err(_)) || ev matches ApplyEvent::DiffDone(Err(_))
            || ev matches ApplyEvent::VerifyDone(Err(_)),
    ensures
        ({
            let (t, a) = apply_step(names, regs, s, ev);
            t.stage is Finished && t.error is Some && a == ApplyAction::Finish
        }),
{
}

/// The steps of an apply fed the events `evs` in turn: the state they leave and the
/// actions they ask for, in order.
pub open spec fn run_steps(names: Seq<Seq<char>>, regs: Seq<Seq<char>>, s: ApplyState, evs: Seq<ApplyEvent>) -> (ApplyState, Seq<ApplyAction>)
    decreases evs.len(),
{
    if evs.len() == 0 {
        (s, Seq::empty())
    } else {
        let (t, a) = apply_step(names, regs, s, evs[0]);
        let (u, acts) = run_steps(names, regs, t, evs.subrange(1, evs.len() as int));
        (u, seq![a] + acts)
    }
}

/// The rollbacks of the checkpoints below position `k`, latest first.
pub open spec fn rollbacks_below(k: nat) -> Seq<ApplyAction>
    decreases k,
{
    if k == 0 {
        Seq::empty()
    } else {
        seq![ApplyAction::Rollback((k - 1) as usize)] + rollbacks_below((k - 1) as nat)
    }
}

/// `n` rollback answers.
pub open spec fn rollbacks_done(n: nat) -> Seq<ApplyEvent> {
    Seq::new(n, |i: int| ApplyEvent::RollbackDone)
}

/// Once a rollback has begun at position `k` (the rollback of checkpoint `k - 1` asked
/// for), answering each rollback asks for every earlier checkpoint in turn, latest first, and
/// then finishes, keeping the error, the checkpoints, the diffs and the results.
pub proof fn law_rollback_runs_to_the_end(names: Seq<Seq<char>>, regs: Seq<Seq<char>>, s: ApplyState)
    requires
        state_wf(names, regs, s),
        s.stage is RollingBack,
    ensures
        ({
            let (u, acts) = run_steps(names, regs, s, rollbacks_done(s.index as nat));
            &&& u.stage is Finished
            &&& u.error == s.error
            &&& u.checkpoints == s.checkpoints
            &&& u.diffs == s.diffs
            &&& u.results == s.results
            &&& acts == rollbacks_below((s.index - 1) as nat) + seq![ApplyAction::Finish]
        }),
    decreases s.index,
{
    let evs = rollbacks_done(s.index as nat);
    let (t, a) = apply_step(names, regs, s, evs[0]);
    let rest = evs.subrange(1, evs.len() as int);
    assert(rest =~= rollbacks_done((s.index - 1) as nat));
    let (u, acts) = run_steps(names, regs, t, rest);
    assert(run_steps(names, regs, s, evs) == (u, seq![a] + acts));
    if s.index > 1 {
        assert(t == ApplyState { index: s.index - 1, ..s });
        assert(a == ApplyAction::Rollback((s.index - 2) as usize));
        assert(state_wf(names, regs, t));
        law_rollback_runs_to_the_end(names, regs, t);
        assert(rollbacks_below((s.index - 1) as nat) =~= seq![ApplyAction::Rollback((s.index - 2) as usize)]
            + rollbacks_below((s.index - 2) as nat));
        assert(seq![a] + acts =~= rollbacks_below((s.index - 1) as nat) + seq![ApplyAction::Finish]);
    } else {
        assert(t.stage is Finished);
        assert(a == ApplyAction::Finish);
        assert(rest.len() == 0);
        assert(rollbacks_below(0) =~= Seq::<ApplyAction>::empty());
        assert(seq![a] + acts =~= rollbacks_below((s.index - 1) as nat) + seq![ApplyAction::Finish]);
    }
}

/// A failed apply of a diff restores every checkpoint, latest first, and then finishes with
/// that failure as the outcome (or finishes at once when there is no checkpoint).
pub proof fn law_failed_apply_restores_every_checkpoint(names: Seq<Seq<char>>, regs: Seq<Seq<char>>, s: ApplyState, e: String)
    requires
        state_wf(names, regs, s),
        s.stage is Applying,
    ensures
        ({
            let evs = seq![ApplyEvent::ApplyDone(Err(e))] + rollbacks_done(s.checkpoints.len());
            let (u, acts) = run_steps(names, regs, s, evs);
            &&& u.stage is Finished
            &&& u.error == Some(e@)
            &&& u.checkpoints == s.checkpoints
            &&& acts == rollbacks_below(s.checkpoints.len()) + seq![ApplyAction::Finish]
        }),
{
    let evs = seq![ApplyEvent::ApplyDone(Err(e))] + rollbacks_done(s.checkpoints.len());
    let (t, a) = apply_step(names, regs, s, evs[0]);
    let rest = evs.subrange(1, evs.len() as int);
    assert(rest =~= rollbacks_done(s.checkpoints.len()));
    law_apply_failure_rolls_back(names, regs, s, e);
    let (u, acts) = run_steps(names, regs, t, rest);
    assert(run_steps(names, regs, s, evs) == (u, seq![a] + acts));
    if s.checkpoints.len() > 0 {
        assert(state_wf(names, regs, t));
        law_rollback_runs_to_the_end(names, regs, t);
        assert(rollbacks_below(s.checkpoints.len()) =~= seq![ApplyAction::Rollback((s.checkpoints.len() - 1) as usize)]
            + rollbacks_below((s.checkpoints.len() - 1) as nat));
        assert(seq![a] + acts =~= rollbacks_below(s.checkpoints.len()) + seq![ApplyAction::Finish]);
    } else {
        assert(rest.len() == 0);
        assert(rollbacks_below(0) =~= Seq::<ApplyAction>::empty());
        assert(seq![a] + acts =~= rollbacks_below(s.checkpoints.len()) + seq![ApplyAction::Finish]);
    }
}

/// A failed verification restores every checkpoint, latest first, and then finishes with
/// `State verification failed` as the outcome (or finishes at once when there is no
/// checkpoint).
pub proof fn law_failed_verification_restores_every_checkpoint(names: Seq<Seq<char>>, regs: Seq<Seq<char>>, s: ApplyState)
    requires
        state_wf(names, regs, s),
        s.stage is Verifying,
    ensures
        ({
            let evs = seq![ApplyEvent::VerifyDone(Ok(false))] + rollbacks_done(s.checkpoints.len());
            let (u, acts) = run_steps(names, regs, s, evs);
            &&& u.stage is Finished
            &&& u.error == Some(verification_failed())
            &&& u.checkpoints == s.checkpoints
            &&& acts == rollbacks_below(s.checkpoints.len()) + seq![ApplyAction::Finish]
        }),
{
    let evs = seq![ApplyEvent::VerifyDone(Ok(false))] + rollbacks_done(s.checkpoints.len());
    let (t, a) = apply_step(names, regs, s, evs[0]);
    let rest = evs.subrange(1, evs.len() as int);
    assert(rest =~= rollbacks_done(s.checkpoints.len()));
    law_verify_failure_rolls_back(names, regs, s);
    let (u, acts) = run_steps(names, regs, t, rest);
    assert(run_steps(names, regs, s, evs) == (u, seq![a] + acts));
    if s.checkpoints.len() > 0 {
        assert(state_wf(names, regs, t));
        law_rollback_runs_to_the_end(names, regs, t);
        assert(rollbacks_below(s.checkpoints.len()) =~= seq![ApplyAction::Rollback((s.checkpoints.len() - 1) as usize)]
            + rollbacks_below((s.checkpoints.len() - 1) as nat));
        assert(seq![a] + acts =~= rollbacks_below(s.checkpoints.len()) + seq![ApplyAction::Finish]);
    } else {
        assert(rest.len() == 0);
        assert(rollbacks_below(0) =~= Seq::<ApplyAction>::empty());
        assert(seq![a] + acts =~= rollbacks_below(s.checkpoints.len()) + seq![ApplyAction::Finish]);
    }
}

/// An answer that reports a success and, for a diff, no change.
pub open spec fn quiet_event(ev: ApplyEvent) -> bool {
    ||| ev matches ApplyEvent::CurrentDone(Ok(_))
    ||| ev matches ApplyEvent::DiffDone(Ok(d)) && d.actions@.len() == 0
}

/// Each of `evs`, fed in turn from `s`, answers what was asked for, with a success and no
/// change.
pub open spec fn quiet_answers(names: Seq<Seq<char>>, regs: Seq<Seq<char>>, s: ApplyState, evs: Seq<ApplyEvent>) -> bool
    decreases evs.len(),
{
    if evs.len() == 0 {
        true
    } else {
        &&& event_fits(regs, s.stage, evs[0])
        &&& quiet_event(evs[0])
        &&& quiet_answers(names, regs, apply_step(names, regs, s, evs[0]).0, evs.subrange(1, evs.len() as int))
    }
}

/// An apply whose desired state is already in place changes nothing: once its checkpoints are
/// saved, answering every query with a success and every diff with no change asks only for
/// further queries and diffs, or for the finish, never to apply, verify or roll back; and the
/// run stands with no diff, no result, no error and its checkpoints kept, so a finished run
/// reports success with no result.
pub proof fn law_unchanged_state_applies_nothing(names: Seq<Seq<char>>, regs: Seq<Seq<char>>, s: ApplyState, evs: Seq<ApplyEvent>)
    requires
        state_wf(names, regs, s),
        s.stage is Querying || s.stage is Diffing,
        s.diffs.len() == 0,
        quiet_answers(names, regs, s, evs),
    ensures
        ({
            let (u, acts) = run_steps(names, regs, s, evs);
            &&& forall|k: int|
                0 <= k < acts.len() ==> (#[trigger] acts[k] is QueryCurrent || acts[k] is CalculateDiff || acts[k] is Finish)
            &&& u.diffs.len() == 0
            &&& u.results.len() == 0
            &&& u.error is None
            &&& u.checkpoints == s.checkpoints
            &&& (u.stage is Querying || u.stage is Diffing || u.stage is Finished)
        }),
    decreases evs.len(),
{
    if evs.len() > 0 {
        let ev = evs[0];
        let rest = evs.subrange(1, evs.len() as int);
        lemma_absorb_wf(names, regs, s, ev);
        lemma_advance_wf(names, regs, absorb(names, s, ev));
        let (t, a) = apply_step(names, regs, s, ev);
        assert(state_wf(names, regs, t));
        assert(a is QueryCurrent || a is CalculateDiff || a is Finish);
        assert(t.diffs.len() == 0 && t.error is None && t.checkpoints == s.checkpoints);
        assert(t.stage is Querying || t.stage is Diffing || t.stage is Finished);
        assert(quiet_answers(names, regs, t, rest));
        let (u, acts) = run_steps(names, regs, t, rest);
        assert(run_steps(names, regs, s, evs) == (u, seq![a] + acts));
        if t.stage is Finished {
            if rest.len() > 0 {
                assert(event_fits(regs, t.stage, rest[0]));
                assert(false);
            }
        } else {
            law_unchanged_state_applies_nothing(names, regs, t, rest);
        }
        assert forall|k: int| 0 <= k < (seq![a] + acts).len() implies (#[trigger] (seq![a] + acts)[k] is QueryCurrent
            || (seq![a] + acts)[k] is CalculateDiff || (seq![a] + acts)[k] is Finish) by {
            if k > 0 {
                assert((seq![a] + acts)[k] == acts[k - 1]);
            }
        }
    }
}

/// A run that finishes without an error has applied every diff that holds changes.
pub proof fn law_success_applied_every_diff(names: Seq<Seq<char>>, regs: Seq<Seq<char>>, s: ApplyState)
    requires
        state_wf(names, regs, s),
        s.stage is Finished,
        s.error is None,
    ensures
        s.results.len() == s.diffs.len(),
        forall|i: int| 0 <= i < s.diffs.len() ==> (#[trigger] s.diffs[i]).actions@.len() > 0,
{
}

/// The key of an entry.
pub open spec fn key_at(s: Seq<(Option<String>, String, Json)>, i: int) -> Option<Seq<char>> {
    match s[i].0 {
        Some(k) => Some(k@),
        None => None,
    }
}

/// The entry at `i` has a key and is the last one with it (the one a map built from the
/// entries keeps).
pub open spec fn effective(s: Seq<(Option<String>, String, Json)>, i: int) -> bool {
    &&& key_at(s, i) is Some
    &&& forall|j: int| i < j < s.len() ==> #[trigger] key_at(s, j) != key_at(s, i)
}

/// The position of the last entry with key `k`.
pub open spec fn last_with(s: Seq<(Option<String>, String, Json)>, k: Seq<char>) -> Option<int>
    decreases s.len(),
{
    if s.len() == 0 {
        None
    } else if key_at(s, s.len() - 1) == Some(k) {
        Some(s.len() - 1)
    } else {
        last_with(s.drop_last(), k)
    }
}

/// A planned change: its kind, its resource, and the configuration it carries.
pub ghost enum PlannedChange {
    Create(Seq<char>, Json),
    Modify(Seq<char>, Json),
    Delete(Seq<char>),
}

/// The change for the desired entry at `i`: a create when no current entry has its key, a
/// modify when the current one differs, nothing when it is the same.
pub open spec fn upsert_change(
    c: Seq<(Option<String>, String, Json)>,
    d: Seq<(Option<String>, String, Json)>,
    prefix: Seq<char>,
    i: int,
) -> Seq<PlannedChange> {
    match last_with(c, key_at(d, i)->0) {
        Some(j) => if json_same(c[j].2, d[i].2) {
            seq![]
        } else {
            seq![PlannedChange::Modify(prefix + d[i].1@, d[i].2)]
        },
        None => seq![PlannedChange::Create(prefix + d[i].1@, d[i].2)],
    }
}

/// The creates and modifies for the desired entries before `n`, in order.
pub open spec fn planned_upserts(
    c: Seq<(Option<String>, String, Json)>,
    d: Seq<(Option<String>, String, Json)>,
    prefix: Seq<char>,
    n: int,
) -> Seq<PlannedChange>
    decreases n,
{
    if n <= 0 {
        seq![]
    } else {
        planned_upserts(c, d, prefix, n - 1) + if effective(d, n - 1) {
            upsert_change(c, d, prefix, n - 1)
        } else {
            seq![]
        }
    }
}

/// The deletes for the current entries before `n` whose key no desired entry has, in order.
pub open spec fn planned_deletes(
    c: Seq<(Option<String>, String, Json)>,
    d: Seq<(Option<String>, String, Json)>,
    prefix: Seq<char>,
    n: int,
) -> Seq<PlannedChange>
    decreases n,
{
    if n <= 0 {
        seq![]
    } else {
        planned_deletes(c, d, prefix, n - 1) + if effective(c, n - 1) && last_with(d, key_at(c, n - 1)->0) is None {
            seq![PlannedChange::Delete(prefix + c[n - 1].1@)]
        } else {
            seq![]
        }
    }
}

/// The changes from the current to the desired entries: creates and modifies in the
/// order of the desired entries, then deletes in the order of the current ones.
pub open spec fn planned_changes(
    c: Seq<(Option<String>, String, Json)>,
    d: Seq<(Option<String>, String, Json)>,
    prefix: Seq<char>,
) -> Seq<PlannedChange> {
    planned_upserts(c, d, prefix, d.len() as int) + planned_deletes(c, d, prefix, c.len() as int)
}

/// An action is the planned change: same kind, same resource, same configuration.
pub open spec fn action_is(a: StateAction, p: PlannedChange) -> bool {
    match (a, p) {
        (StateAction::Create { resource, config }, PlannedChange::Create(r, j)) => resource@ == r && json_same(j, config),
        (StateAction::Modify { resource, changes }, PlannedChange::Modify(r, j)) => resource@ == r && json_same(j, changes),
        (StateAction::Delete { resource }, PlannedChange::Delete(r)) => resource@ == r,
        _ => false,
    }
}

/// The actions are the planned changes, in order.
pub open spec fn actions_are(a: Seq<StateAction>, p: Seq<PlannedChange>) -> bool {
    a.len() == p.len() && forall|i: int| 0 <= i < a.len() ==> action_is(#[trigger] a[i], p[i])
}


/// Whether two optional keys are the same.
fn same_key(a: &Option<String>, b: &Option<String>) -> (r: bool)
    ensures
        r == ((match *a {
            Some(k) => Some(k@),
            None => None::<Seq<char>>,
        }) == (match *b {
            Some(k) => Some(k@),
            None => None::<Seq<char>>,
        })),
{
    match (a, b) {
        (Some(x), Some(y)) => same_text(x.as_str(), y.as_str()),
        (None, None) => true,
        _ => false,
    }
}

/// Whether the entry at `i` has a key and is the last one with it.
fn is_effective(s: &Vec<(Option<String>, String, Json)>, i: usize) -> (r: bool)
    requires
        i < s@.len(),
    ensures
        r == effective(s@, i as int),
{
    if s[i].0.is_none() {
        return false;
    }
    let n = s.len();
    let mut j = i + 1;
    while j < s.len()
        invariant
            i < j <= s@.len(),
            key_at(s@, i as int) is Some,
            forall|m: int| i < m < j ==> #[trigger] key_at(s@, m) != key_at(s@, i as int),
        decreases s@.len() - j,
    {
        if same_key(&s[j].0, &s[i].0) {
            assert(key_at(s@, j as int) == key_at(s@, i as int));
            return false;
        }
        j = j + 1;
    }
    true
}

/// The position of the last entry with key `k`.
fn find_last(s: &Vec<(Option<String>, String, Json)>, k: &str) -> (r: Option<usize>)
    ensures
        match r {
            Some(j) => last_with(s@, k@) == Some(j as int) && j < s@.len() && key_at(s@, j as int) == Some(k@),
            None => last_with(s@, k@) is None,
        },
{
    let mut i = s.len();
    assert(s@.subrange(0, s@.len() as int) =~= s@);
    while i > 0
        invariant
            i <= s@.len(),
            last_with(s@, k@) == last_with(s@.subrange(0, i as int), k@),
            forall|j: int| i <= j < s@.len() ==> #[trigger] key_at(s@, j) != Some(k@),
        decreases i,
    {
        let ghost pre = s@.subrange(0, i as int);
        assert(pre.drop_last() =~= s@.subrange(0, i - 1));
        assert(key_at(pre, pre.len() - 1) == key_at(s@, i - 1));
        let hit = match &s[i - 1].0 {
            Some(x) => same_text(x.as_str(), k),
            None => false,
        };
        if hit {
            return Some(i - 1);
        }
        i = i - 1;
    }
    None
}

/// The resource name `prefix` + `name`.
fn resource_name(prefix: &str, name: &str) -> (r: String)
    ensures
        r@ == prefix@ + name@,
{
    let mut r = owned(prefix);
    push_str(&mut r, name);
    r
}

/// The actions that bring the current entries to the desired ones: for each desired key
/// (its last entry), a create when no current entry has it and a modify when the current
/// configuration differs; then, for each current key no desired entry has, a delete.
/// Resources are named `prefix` + the entry's name.
pub fn plan_changes(
    current: &Vec<(Option<String>, String, Json)>,
    desired: &Vec<(Option<String>, String, Json)>,
    prefix: &str,
) -> (r: Vec<StateAction>)
    ensures
        actions_are(r@, planned_changes(current@, desired@, prefix@)),
{
    let mut out: Vec<StateAction> = Vec::new();
    let mut i: usize = 0;
    while i < desired.len()
        invariant
            i <= desired@.len(),
            actions_are(out@, planned_upserts(current@, desired@, prefix@, i as int)),
        decreases desired@.len() - i,
    {
        let ghost before = out@;
        if is_effective(desired, i) {
            let key = match &desired[i].0 {
                Some(k) => k.as_str(),
                None => "",
            };
            assert(key@ == key_at(desired@, i as int)->0);
            let res = resource_name(prefix, desired[i].1.as_str());
            match find_last(current, key) {
                Some(j) => {
                    if !same_json(&current[j].2, &desired[i].2) {
                        let c = copy_json(&desired[i].2);
                        assert(last_with(current@, key@) == Some(j as int));
                        assert(upsert_change(current@, desired@, prefix@, i as int) == seq![PlannedChange::Modify(prefix@ + desired@[i as int].1@, desired@[i as int].2)]);
                        out.push(StateAction::Modify { resource: res, changes: c });
                        assert(action_is(out@[before.len() as int], upsert_change(current@, desired@, prefix@, i as int)[0]));
                    }
                },
                None => {
                    out.push(StateAction::Create { resource: res, config: copy_json(&desired[i].2) });
                    assert(action_is(out@[before.len() as int], upsert_change(current@, desired@, prefix@, i as int)[0]));
                },
            }
        }
        proof {
            let step = if effective(desired@, i as int) {
                upsert_change(current@, desired@, prefix@, i as int)
            } else {
                seq![]
            };
            assert(planned_upserts(current@, desired@, prefix@, i + 1) == planned_upserts(current@, desired@, prefix@, i as int) + step);
            assert forall|m: int| 0 <= m < out@.len() implies action_is(#[trigger] out@[m], planned_upserts(current@, desired@, prefix@, i + 1)[m]) by {
                if m < before.len() {
                    assert(out@[m] == before[m]);
                }
            }
        }
        i = i + 1;
    }
    let ghost ups = out@;
    let mut j: usize = 0;
    while j < current.len()
        invariant
            j <= current@.len(),
            ups.len() == planned_upserts(current@, desired@, prefix@, desired@.len() as int).len(),
            actions_are(out@, planned_upserts(current@, desired@, prefix@, desired@.len() as int) + planned_deletes(current@, desired@, prefix@, j as int)),
        decreases current@.len() - j,
    {
        let ghost before = out@;
        if is_effective(current, j) {
            let key = match &current[j].0 {
                Some(k) => k.as_str(),
                None => "",
            };
            assert(key@ == key_at(current@, j as int)->0);
            if find_last(desired, key).is_none() {
                out.push(StateAction::Delete { resource: resource_name(prefix, current[j].1.as_str()) });
            }
        }
        proof {
            let u = planned_upserts(current@, desired@, prefix@, desired@.len() as int);
            let step = if effective(current@, j as int) && last_with(desired@, key_at(current@, j as int)->0) is None {
                seq![PlannedChange::Delete(prefix@ + current@[j as int].1@)]
            } else {
                seq![]
            };
            assert(planned_deletes(current@, desired@, prefix@, j + 1) == planned_deletes(current@, desired@, prefix@, j as int) + step);
            assert(u + planned_deletes(current@, desired@, prefix@, j + 1) =~= (u + planned_deletes(current@, desired@, prefix@, j as int)) + step);
            assert forall|m: int| 0 <= m < out@.len() implies action_is(#[trigger] out@[m], (u + planned_deletes(current@, desired@, prefix@, j + 1))[m]) by {
                if m < before.len() {
                    assert(out@[m] == before[m]);
                }
            }
        }
        j = j + 1;
    }
    out
}

} // verus!
