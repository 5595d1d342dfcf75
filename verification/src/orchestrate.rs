//! The parallel rollout orchestrator's state machine: one record per
//! service stepping `Pending -> Dispatched -> WaitingForRollout` into a
//! terminal outcome, a dispatcher that never lets more than the pool
//! size run at once, and a report that enumerates every outcome. The
//! callers' workers perform the upgrades; every decision is here.
use vstd::prelude::*;
use vstd::pervasive::VecAdditionalExecFns;

use crate::helm::UpgradeMode;

verus! {

/// Where one service's rollout stands.
#[derive(Clone, Copy, Debug, PartialEq, Eq, Structural)]
pub enum RolloutPhase {
    /// Not yet handed to a worker.
    Pending,
    /// Handed to a worker; the upgrade call is running.
    Dispatched,
    /// Upgrade accepted; polling the rollout status.
    WaitingForRollout,
    /// Came online within the budget.
    Succeeded,
    /// Did not come online within the budget. The rollout itself is not
    /// killed; the outcome is reported.
    TimedOut,
    /// The upgrade invocation failed.
    Failed,
    /// Rolled back after a failure or timeout, on request of the mode.
    RolledBack,
}

impl RolloutPhase {
    /// Whether a worker currently owns this service.
    pub open spec fn active(self) -> bool {
        self == RolloutPhase::Dispatched || self == RolloutPhase::WaitingForRollout
    }

    /// Decides `active`.
    pub fn is_active(&self) -> (r: bool)
        ensures
            r == self.active(),
    {
        *self == RolloutPhase::Dispatched || *self == RolloutPhase::WaitingForRollout
    }

    /// Whether this phase is an outcome a worker may report.
    pub open spec fn outcome(self) -> bool {
        self == RolloutPhase::Succeeded || self == RolloutPhase::TimedOut || self
            == RolloutPhase::Failed
    }

    /// Decides `outcome`.
    pub fn is_outcome(&self) -> (r: bool)
        ensures
            r == self.outcome(),
    {
        *self == RolloutPhase::Succeeded || *self == RolloutPhase::TimedOut || *self
            == RolloutPhase::Failed
    }
}

/// One rollout attempt: the target service, the concrete version, the
/// namespace, the requested mode, the wait budget, and where it stands.
#[derive(Clone, Debug)]
pub struct UpgradeData {
    pub name: String,
    pub version: String,
    pub namespace: String,
    pub mode: UpgradeMode,
    /// Wait budget in seconds, from the manifest's estimate.
    pub waittime: u32,
    pub phase: RolloutPhase,
}

/// How many of the records a worker currently owns.
pub open spec fn active_count(jobs: Seq<UpgradeData>) -> int
    decreases jobs.len(),
{
    if jobs.len() == 0 {
        0
    } else {
        active_count(jobs.drop_last()) + if jobs.last().phase.active() {
            1int
        } else {
            0int
        }
    }
}

/// Changing one record to an inactive phase never raises the active
/// count, and lowers it when the record was active.
pub proof fn lemma_active_count_update(jobs: Seq<UpgradeData>, i: int, j: UpgradeData)
    requires
        0 <= i < jobs.len(),
    ensures
        active_count(jobs.update(i, j)) == active_count(jobs) + (if j.phase.active() {
            1int
        } else {
            0int
        }) - (if jobs[i].phase.active() {
            1int
        } else {
            0int
        }),
    decreases jobs.len(),
{
    let u = jobs.update(i, j);
    assert(u.len() == jobs.len());
    if i == jobs.len() - 1 {
        assert(u.drop_last() =~= jobs.drop_last());
        assert(u.last() == j);
    } else {
        assert(u.drop_last() =~= jobs.drop_last().update(i, j));
        assert(u.last() == jobs.last());
        lemma_active_count_update(jobs.drop_last(), i, j);
    }
}

/// The active count never exceeds the length.
pub proof fn lemma_active_count_bounds(jobs: Seq<UpgradeData>)
    ensures
        0 <= active_count(jobs) <= jobs.len(),
    decreases jobs.len(),
{
    if jobs.len() > 0 {
        lemma_active_count_bounds(jobs.drop_last());
    }
}

/// How many records stand in the given phase.
pub open spec fn phase_count(jobs: Seq<UpgradeData>, p: RolloutPhase) -> int
    decreases jobs.len(),
{
    if jobs.len() == 0 {
        0
    } else {
        phase_count(jobs.drop_last(), p) + if jobs.last().phase == p {
            1int
        } else {
            0int
        }
    }
}

/// Counts of every terminal outcome of one orchestration run, so an
/// operator can act differently on each.
#[derive(Clone, Copy, Debug, PartialEq, Eq, Structural)]
pub struct RolloutReport {
    pub succeeded: usize,
    pub timed_out: usize,
    pub failed: usize,
    pub rolled_back: usize,
    /// Records never dispatched (skipped by validation or reconciliation).
    pub pending: usize,
}

/// The scheduler of one orchestration run: the per-service records and
/// the pool bound. Dispatch hands records out one at a time and refuses
/// to exceed the bound; outcomes land record by record, one service's
/// never touching another's.
#[derive(Clone, Debug)]
pub struct Orchestrator {
    pub jobs: Vec<UpgradeData>,
    /// Pool size: an explicit configuration input, at least one.
    pub max_parallel: usize,
}

impl Orchestrator {
    /// The standing invariant: never more active records than the pool
    /// allows.
    pub open spec fn wf(self) -> bool {
        &&& self.max_parallel >= 1
        &&& active_count(self.jobs@) <= self.max_parallel
    }

    /// A run over the given records, none of them started.
    pub fn new(jobs: Vec<UpgradeData>, max_parallel: usize) -> (r: Orchestrator)
        requires
            max_parallel >= 1,
            forall|i: int|
                0 <= i < jobs@.len() ==> (#[trigger] jobs@[i]).phase == RolloutPhase::Pending,
        ensures
            r.wf(),
            r.jobs@ == jobs@,
            r.max_parallel == max_parallel,
    {
        proof {
            lemma_active_count_pending(jobs@);
        }
        Orchestrator { jobs, max_parallel }
    }

    /// The index a free worker should take next: the first pending
    /// record, handed out only while the pool has room. `None` exactly
    /// when the pool is full or nothing is pending.
    pub fn next_dispatch(&mut self) -> (r: Option<usize>)
        requires
            old(self).wf(),
        ensures
            final(self).wf(),
            final(self).max_parallel == old(self).max_parallel,
            match r {
                Some(i) => {
                    &&& i < old(self).jobs@.len()
                    &&& old(self).jobs@[i as int].phase == RolloutPhase::Pending
                    &&& final(self).jobs@[i as int].phase == RolloutPhase::Dispatched
                    &&& final(self).jobs@ == old(self).jobs@.update(
                        i as int,
                        final(self).jobs@[i as int],
                    )
                    &&& active_count(final(self).jobs@) == active_count(old(self).jobs@) + 1
                },
                None => {
                    &&& *final(self) == *old(self)
                    &&& (active_count(old(self).jobs@) == old(self).max_parallel || forall|j: int|
                        0 <= j < old(self).jobs@.len() ==> (#[trigger] old(self).jobs@[j]).phase
                            != RolloutPhase::Pending)
                },
            },
    {
        let active = self.count_active();
        if active >= self.max_parallel {
            return None;
        }
        let mut i: usize = 0;
        while i < self.jobs.len()
            invariant
                i <= self.jobs@.len(),
                *self == *old(self),
                self.max_parallel >= 1,
                active_count(self.jobs@) < self.max_parallel,
                forall|j: int|
                    0 <= j < i ==> (#[trigger] self.jobs@[j]).phase != RolloutPhase::Pending,
            decreases self.jobs@.len() - i,
        {
            if self.jobs[i].phase == RolloutPhase::Pending {
                let j = UpgradeData {
                    name: self.jobs[i].name.clone(),
                    version: self.jobs[i].version.clone(),
                    namespace: self.jobs[i].namespace.clone(),
                    mode: self.jobs[i].mode,
                    waittime: self.jobs[i].waittime,
                    phase: RolloutPhase::Dispatched,
                };
                proof {
                    lemma_active_count_update(self.jobs@, i as int, j);
                }
                self.jobs.set(i, j);
                return Some(i);
            }
            i += 1;
        }
        None
    }

    /// Record the outcome a worker reported for one running service.
    /// Every other record is left exactly as it was: one service's
    /// timeout or failure neither blocks nor cancels its siblings, and
    /// the worker's slot is freed.
    pub fn complete(&mut self, i: usize, outcome: RolloutPhase)
        requires
            old(self).wf(),
            i < old(self).jobs@.len(),
            old(self).jobs@[i as int].phase.active(),
            outcome.outcome(),
        ensures
            final(self).wf(),
            final(self).max_parallel == old(self).max_parallel,
            final(self).jobs@[i as int].phase == outcome,
            final(self).jobs@ == old(self).jobs@.update(i as int, final(self).jobs@[i as int]),
            active_count(final(self).jobs@) == active_count(old(self).jobs@) - 1,
    {
        let j = UpgradeData {
            name: self.jobs[i].name.clone(),
            version: self.jobs[i].version.clone(),
            namespace: self.jobs[i].namespace.clone(),
            mode: self.jobs[i].mode,
            waittime: self.jobs[i].waittime,
            phase: outcome,
        };
        proof {
            lemma_active_count_update(self.jobs@, i as int, j);
        }
        self.jobs.set(i, j);
    }

    /// A dispatched service whose upgrade was accepted moves on to
    /// polling its rollout.
    pub fn start_waiting(&mut self, i: usize)
        requires
            old(self).wf(),
            i < old(self).jobs@.len(),
            old(self).jobs@[i as int].phase == RolloutPhase::Dispatched,
        ensures
            final(self).wf(),
            final(self).max_parallel == old(self).max_parallel,
            final(self).jobs@[i as int].phase == RolloutPhase::WaitingForRollout,
            final(self).jobs@ == old(self).jobs@.update(i as int, final(self).jobs@[i as int]),
            active_count(final(self).jobs@) == active_count(old(self).jobs@),
    {
        let j = UpgradeData {
            name: self.jobs[i].name.clone(),
            version: self.jobs[i].version.clone(),
            namespace: self.jobs[i].namespace.clone(),
            mode: self.jobs[i].mode,
            waittime: self.jobs[i].waittime,
            phase: RolloutPhase::WaitingForRollout,
        };
        proof {
            lemma_active_count_update(self.jobs@, i as int, j);
        }
        self.jobs.set(i, j);
    }

    /// A failed or timed-out service whose mode asks for automatic
    /// rollback is marked rolled back.
    pub fn mark_rolled_back(&mut self, i: usize)
        requires
            old(self).wf(),
            i < old(self).jobs@.len(),
            old(self).jobs@[i as int].phase == RolloutPhase::Failed || old(self).jobs@[i as int].phase == RolloutPhase::TimedOut,
            old(self).jobs@[i as int].mode.rollback_on_failure(),
        ensures
            final(self).wf(),
            final(self).max_parallel == old(self).max_parallel,
            final(self).jobs@[i as int].phase == RolloutPhase::RolledBack,
            final(self).jobs@ == old(self).jobs@.update(i as int, final(self).jobs@[i as int]),
    {
        let j = UpgradeData {
            name: self.jobs[i].name.clone(),
            version: self.jobs[i].version.clone(),
            namespace: self.jobs[i].namespace.clone(),
            mode: self.jobs[i].mode,
            waittime: self.jobs[i].waittime,
            phase: RolloutPhase::RolledBack,
        };
        proof {
            lemma_active_count_update(self.jobs@, i as int, j);
        }
        self.jobs.set(i, j);
    }

    /// How many records a worker currently owns.
    pub fn count_active(&self) -> (r: usize)
        ensures
            r == active_count(self.jobs@),
    {
        proof {
            lemma_active_count_bounds(self.jobs@);
        }
        let mut n: usize = 0;
        let mut i: usize = 0;
        while i < self.jobs.len()
            invariant
                i <= self.jobs@.len(),
                n == active_count(self.jobs@.take(i as int)),
                n <= i,
            decreases self.jobs@.len() - i,
        {
            proof {
                assert(self.jobs@.take(i + 1).drop_last() =~= self.jobs@.take(i as int));
                assert(self.jobs@.take(i + 1).last() == self.jobs@[i as int]);
            }
            if self.jobs[i].phase.is_active() {
                n += 1;
            }
            i += 1;
        }
        assert(self.jobs@.take(self.jobs@.len() as int) =~= self.jobs@);
        n
    }

    /// How many records stand in the given phase.
    pub fn count_phase(&self, p: RolloutPhase) -> (r: usize)
        ensures
            r == phase_count(self.jobs@, p),
    {
        proof {
            lemma_phase_count_bounds(self.jobs@, p);
        }
        let mut n: usize = 0;
        let mut i: usize = 0;
        while i < self.jobs.len()
            invariant
                i <= self.jobs@.len(),
                n == phase_count(self.jobs@.take(i as int), p),
                n <= i,
            decreases self.jobs@.len() - i,
        {
            proof {
                assert(self.jobs@.take(i + 1).drop_last() =~= self.jobs@.take(i as int));
                assert(self.jobs@.take(i + 1).last() == self.jobs@[i as int]);
            }
            if self.jobs[i].phase == p {
                n += 1;
            }
            i += 1;
        }
        assert(self.jobs@.take(self.jobs@.len() as int) =~= self.jobs@);
        n
    }

    /// The aggregate report of this run: every terminal outcome counted,
    /// and what never ran counted as pending.
    pub fn report(&self) -> (r: RolloutReport)
        ensures
            r.succeeded == phase_count(self.jobs@, RolloutPhase::Succeeded),
            r.timed_out == phase_count(self.jobs@, RolloutPhase::TimedOut),
            r.failed == phase_count(self.jobs@, RolloutPhase::Failed),
            r.rolled_back == phase_count(self.jobs@, RolloutPhase::RolledBack),
            r.pending == phase_count(self.jobs@, RolloutPhase::Pending),
    {
        RolloutReport {
            succeeded: self.count_phase(RolloutPhase::Succeeded),
            timed_out: self.count_phase(RolloutPhase::TimedOut),
            failed: self.count_phase(RolloutPhase::Failed),
            rolled_back: self.count_phase(RolloutPhase::RolledBack),
            pending: self.count_phase(RolloutPhase::Pending),
        }
    }
}

/// A run of pending records has nothing active.
pub proof fn lemma_active_count_pending(jobs: Seq<UpgradeData>)
    requires
        forall|i: int| 0 <= i < jobs.len() ==> (#[trigger] jobs[i]).phase == RolloutPhase::Pending,
    ensures
        active_count(jobs) == 0,
    decreases jobs.len(),
{
    if jobs.len() > 0 {
        lemma_active_count_pending(jobs.drop_last());
    }
}

/// A phase count never exceeds the length.
pub proof fn lemma_phase_count_bounds(jobs: Seq<UpgradeData>, p: RolloutPhase)
    ensures
        0 <= phase_count(jobs, p) <= jobs.len(),
    decreases jobs.len(),
{
    if jobs.len() > 0 {
        lemma_phase_count_bounds(jobs.drop_last(), p);
    }
}

} // verus!
