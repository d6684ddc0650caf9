//! Running a plan of steps in order: each step is carried out in turn, and the first one
//! that fails stops the plan with its failure as the outcome.
use vstd::prelude::*;

verus! {

/// What to do next.
#[derive(Clone, Copy, PartialEq, Eq, Structural)]
pub enum PlanStep {
    /// Carry out the step at this position.
    Run(usize),
    /// Stop; the outcome is ready.
    Done,
}

/// A plan under way.
pub struct PlanRun {
    /// The number of steps.
    pub len: usize,
    /// The step carried out now (or the number of steps, once all are done).
    pub next: usize,
    /// The failure that stopped the plan.
    pub failure: Option<String>,
}

/// Where a plan of `len` steps, now at step `next`, ends when the steps it asks for report
/// `outs` in turn (the first report is that of step `next`): the step it stops at (`len`
/// when all succeed) and the failure that stops it.
pub open spec fn run_plan(len: nat, next: nat, outs: Seq<Result<(), Seq<char>>>) -> (nat, Option<Seq<char>>)
    decreases len - next,
{
    if next >= len {
        (next, None)
    } else {
        match outs[0] {
            Err(e) => (next, Some(e)),
            Ok(_) => run_plan(len, next + 1, outs.subrange(1, outs.len() as int)),
        }
    }
}

/// A step's report, as values.
pub open spec fn report(o: Result<(), String>) -> Result<(), Seq<char>> {
    match o {
        Ok(_) => Ok(()),
        Err(e) => Err(e@),
    }
}

/// Where a plan run stands, as `run_plan` counts it: the step it is at, and its failure.
pub open spec fn run_state(p: PlanRun) -> (nat, Option<Seq<char>>) {
    (
        p.next as nat,
        match p.failure {
            Some(e) => Some(e@),
            None => None,
        },
    )
}

impl PlanRun {
    /// Starts a plan of `len` steps: its first step, or done at once when it has none.
    pub fn start(len: usize) -> (r: (PlanRun, PlanStep))
        ensures
            r.0.len == len,
            r.0.next == 0,
            r.0.failure is None,
            r.1 == (if len > 0 { PlanStep::Run(0) } else { PlanStep::Done }),
    {
        let step = if len > 0 { PlanStep::Run(0) } else { PlanStep::Done };
        (PlanRun { len, next: 0, failure: None }, step)
    }

    /// Takes in the report of the step carried out: a failure stops the plan; a success
    /// moves on to the next step, or finishes after the last.
    pub fn step(&mut self, outcome: Result<(), String>) -> (r: PlanStep)
        requires
            old(self).next < old(self).len,
            old(self).failure is None,
        ensures
            final(self).len == old(self).len,
            match outcome {
                Err(e) => final(self).failure == Some(e) && final(self).next == old(self).next && r == PlanStep::Done,
                Ok(_) => {
                    &&& final(self).failure is None
                    &&& final(self).next == old(self).next + 1
                    &&& r == (if final(self).next < final(self).len {
                        PlanStep::Run(final(self).next)
                    } else {
                        PlanStep::Done
                    })
                },
            },
            forall|rest: Seq<Result<(), Seq<char>>>|
                #[trigger] run_plan(old(self).len as nat, old(self).next as nat, seq![report(outcome)] + rest) == match outcome {
                    Err(_) => run_state(*final(self)),
                    Ok(_) => run_plan(final(self).len as nat, final(self).next as nat, rest),
                },
    {
        proof {
            assert forall|rest: Seq<Result<(), Seq<char>>>| #[trigger] (seq![report(outcome)] + rest).subrange(
                1,
                (seq![report(outcome)] + rest).len() as int,
            ) == rest by {
                assert((seq![report(outcome)] + rest).subrange(1, (seq![report(outcome)] + rest).len() as int) =~= rest);
            }
        }
        match outcome {
            Err(e) => {
                self.failure = Some(e);
                PlanStep::Done
            },
            Ok(_) => {
                self.next = self.next + 1;
                if self.next < self.len {
                    PlanStep::Run(self.next)
                } else {
                    PlanStep::Done
                }
            },
        }
    }

    /// The plan's outcome: its failure, or success.
    pub fn outcome(self) -> (r: Result<(), String>)
        ensures
            match self.failure {
                Some(e) => r == Err::<(), String>(e),
                None => r is Ok,
            },
    {
        match self.failure {
            Some(e) => Err(e),
            None => Ok(()),
        }
    }
}

/// A plan's steps run in order and the first failure ends it: from step `next`, fed the
/// reports `outs` of the steps it asks for, a plan stops at the first step whose report is
/// a failure, with that failure, every step before it having succeeded; when no step fails,
/// it runs to the end with success.
pub proof fn law_plan_stops_at_first_failure(len: nat, next: nat, outs: Seq<Result<(), Seq<char>>>)
    requires
        next <= len,
        outs.len() >= len - next,
    ensures
        ({
            let (n, f) = run_plan(len, next, outs);
            &&& next <= n <= len
            &&& (f is None <==> (forall|i: int| 0 <= i < len - next ==> #[trigger] outs[i] is Ok))
            &&& (f is None ==> n == len)
            &&& (f matches Some(e) ==> n < len && outs[n - next] == Err::<(), Seq<char>>(e))
            &&& forall|i: int| 0 <= i < n - next ==> #[trigger] outs[i] is Ok
        }),
    decreases len - next,
{
    if next < len {
        let rest = outs.subrange(1, outs.len() as int);
        law_plan_stops_at_first_failure(len, next + 1, rest);
        let (n, f) = run_plan(len, next, outs);
        if outs[0] is Ok {
            assert forall|i: int| 0 <= i < len - next - 1 implies #[trigger] rest[i] == outs[i + 1] by {}
            assert((forall|i: int| 0 <= i < len - next ==> #[trigger] outs[i] is Ok) <==> (forall|i: int|
                0 <= i < len - next - 1 ==> #[trigger] rest[i] is Ok)) by {
                if forall|i: int| 0 <= i < len - next - 1 ==> #[trigger] rest[i] is Ok {
                    assert forall|i: int| 0 <= i < len - next implies #[trigger] outs[i] is Ok by {
                        if i > 0 {
                            assert(rest[i - 1] == outs[i]);
                        }
                    }
                }
            }
            assert forall|i: int| 0 <= i < n - next implies #[trigger] outs[i] is Ok by {
                if i > 0 {
                    assert(rest[i - 1] == outs[i]);
                }
            }
            if f is Some {
                assert(outs[n - next] == rest[n - next - 1]);
            }
        }
    }
}

} // verus!
