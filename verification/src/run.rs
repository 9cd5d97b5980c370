//! One run of the load generator, as a single event-driven state machine.
//!
//! The caller owns the I/O loop: it asks `start_next` which unit to start,
//! executes that unit under the configured deadline, and hands the observed
//! end of each unit to `on_unit_event`. The run state couples the scheduler
//! with the aggregator, so every completion is classified, counted toward
//! progress and accounted for exactly once.

use vstd::prelude::*;

use crate::aggregator::Aggregator;
use crate::endpoint::WorkDescriptor;
use crate::outcome::classify;
use crate::outcome::FailureKind;
use crate::outcome::Outcome;
use crate::outcome::UnitEvent;
use crate::scheduler::Scheduler;

verus! {

/// The whole state of one run: the sliding-window scheduler and the
/// outcome tallies, kept consistent with one another.
pub struct Run {
    pub sched: Scheduler,
    pub agg: Aggregator,
}

impl Run {
    /// Well-formedness: both halves are well formed, the aggregator counts
    /// toward the target space's size, and its progress tally equals the
    /// number of outcomes the scheduler has seen.
    pub open spec fn wf(self) -> bool {
        &&& self.sched.wf()
        &&& self.agg.wf()
        &&& self.agg.total == self.sched.targets@.len()
        &&& self.agg.done == self.sched.completed@.len()
    }

    /// A new run over `targets`, with at most `concurrency` units in
    /// flight and detailed reporting for every `sample_every`-th unit.
    pub fn new(targets: Vec<WorkDescriptor>, concurrency: usize, sample_every: usize) -> (r: Run)
        requires
            concurrency >= 1,
            sample_every >= 1,
        ensures
            r.wf(),
            r.sched.targets == targets,
            r.sched.concurrency == concurrency,
            r.sched.next == 0,
            r.sched.in_flight@.len() == 0,
            r.sched.completed@.len() == 0,
            r.agg.sample_every == sample_every,
            r.agg.done == 0,
    {
        let total = targets.len();
        Run { sched: Scheduler::new(targets, concurrency), agg: Aggregator::new(total, sample_every) }
    }

    /// Hand out the next unit to start, exactly when a slot is free and
    /// descriptors remain; the unit is in flight from this instant.
    pub fn start_next(&mut self) -> (r: Option<(usize, WorkDescriptor)>)
        requires
            old(self).wf(),
        ensures
            final(self).wf(),
            final(self).agg == old(self).agg,
            final(self).sched.targets == old(self).sched.targets,
            final(self).sched.concurrency == old(self).sched.concurrency,
            r is Some <==> (old(self).sched.in_flight@.len() < old(self).sched.concurrency && old(
                self,
            ).sched.next < old(self).sched.targets@.len()),
            r matches Some((id, d)) ==> {
                &&& id == old(self).sched.next
                &&& d == old(self).sched.targets@[id as int]
                &&& final(self).sched.in_flight@ == old(self).sched.in_flight@.push(id)
                &&& final(self).sched.next == old(self).sched.next + 1
            },
            r is None ==> *final(self) == *old(self),
    {
        self.sched.start_next()
    }

    /// Consume the observed end of unit `id`: free its slot, classify the
    /// event — a deadline that elapsed is a timeout and nothing else —
    /// count it, and return the outcome with the advice whether to report
    /// it in detail.
    pub fn on_unit_event(&mut self, id: usize, ev: UnitEvent) -> (r: (Outcome, bool))
        requires
            old(self).wf(),
            old(self).sched.in_flight@.contains(id),
        ensures
            final(self).wf(),
            final(self).sched.targets == old(self).sched.targets,
            final(self).sched.concurrency == old(self).sched.concurrency,
            final(self).sched.next == old(self).sched.next,
            final(self).sched.in_flight@ == old(self).sched.in_flight@.remove_value(id),
            final(self).sched.in_flight@.len() == old(self).sched.in_flight@.len() - 1,
            final(self).sched.in_flight@.len() < final(self).sched.concurrency,
            final(self).sched.completed@ == old(self).sched.completed@.push(id),
            final(self).agg.done == old(self).agg.done + 1,
            r.0 is Timeout <==> ev is DeadlineElapsed,
            ev matches UnitEvent::Finished { exit_code, stdout, stderr } ==> r.0 == (
            Outcome::Success { exit_code, stdout, stderr }),
            ev matches UnitEvent::UnitFailed { detail } ==> r.0 == (Outcome::Failure {
                kind: FailureKind::Unit,
                detail,
            }),
            ev matches UnitEvent::JoinFailed { detail } ==> r.0 == (Outcome::Failure {
                kind: FailureKind::Join,
                detail,
            }),
            r.1 == (id % old(self).agg.sample_every == 0),
    {
        proof {
            assert(old(self).sched.completed@.len() < old(self).sched.next) by {
                let w = choose|w: int|
                    0 <= w < old(self).sched.in_flight@.len() && old(self).sched.in_flight@[w]
                        == id;
                assert(old(self).sched.in_flight@.len() >= 1);
            }
        }
        self.sched.complete(id);
        let o = classify(ev);
        let detailed = self.agg.record(id, &o);
        (o, detailed)
    }

    /// Whether the run is over: every descriptor submitted, every unit
    /// completed, no unit in flight.
    pub fn is_done(&self) -> (b: bool)
        requires
            self.wf(),
        ensures
            b == (self.sched.next == self.sched.targets@.len() && self.sched.in_flight@.len()
                == 0),
            b ==> self.agg.done == self.sched.targets@.len(),
    {
        proof {
            if self.sched.next == self.sched.targets@.len() && self.sched.in_flight@.len() == 0 {
                self.sched.lemma_run_complete();
            }
        }
        self.sched.is_done()
    }
}

} // verus!
