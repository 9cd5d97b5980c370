//! The result aggregator and progress reporter.
//!
//! It consumes the scheduler's outcome stream in delivery order — any
//! interleaving is tolerated — advances the progress tally by one per
//! outcome, and classifies each into success, unit failure, join failure
//! or timeout. Detailed output is only advised for a sampled subset of
//! units (every `sample_every`-th descriptor index) to bound log volume,
//! but every completion counts toward progress and the per-class tallies.
//! The aggregator never fails and never retries.

use vstd::prelude::*;

use crate::outcome::FailureKind;
use crate::outcome::Outcome;

verus! {

/// The default sampling density: detailed output for one unit in this many.
pub const DEFAULT_SAMPLE_EVERY: usize = 10000;

/// The run's tallies. `total` is the target space's size; `done` counts
/// outcomes seen so far; the four class counters partition `done`.
#[derive(Clone, Copy, Debug, PartialEq, Eq, Structural)]
pub struct Aggregator {
    pub total: usize,
    pub sample_every: usize,
    pub done: usize,
    pub successes: usize,
    pub unit_failures: usize,
    pub join_failures: usize,
    pub timeouts: usize,
}

impl Aggregator {
    /// Well-formedness: the sampling density is positive, the tally never
    /// passes the target space's size, and the class counters account for
    /// every outcome seen, each exactly once.
    pub open spec fn wf(self) -> bool {
        &&& self.sample_every >= 1
        &&& self.done <= self.total
        &&& self.done == self.successes + self.unit_failures + self.join_failures + self.timeouts
    }

    /// A fresh aggregator for a run of `total` descriptors, with detailed
    /// output advised for every `sample_every`-th descriptor index.
    pub fn new(total: usize, sample_every: usize) -> (a: Aggregator)
        requires
            sample_every >= 1,
        ensures
            a.wf(),
            a.total == total,
            a.sample_every == sample_every,
            a.done == 0,
            a.successes == 0,
            a.unit_failures == 0,
            a.join_failures == 0,
            a.timeouts == 0,
    {
        Aggregator {
            total,
            sample_every,
            done: 0,
            successes: 0,
            unit_failures: 0,
            join_failures: 0,
            timeouts: 0,
        }
    }

    /// Record the outcome of the unit with descriptor index `id`: progress
    /// advances by one whatever the outcome, exactly one class counter
    /// advances with it, and the result says whether this unit's output
    /// should be reported in detail (exactly the sampled indices).
    pub fn record(&mut self, id: usize, o: &Outcome) -> (detailed: bool)
        requires
            old(self).wf(),
            old(self).done < old(self).total,
        ensures
            final(self).wf(),
            final(self).total == old(self).total,
            final(self).sample_every == old(self).sample_every,
            final(self).done == old(self).done + 1,
            detailed == (id % old(self).sample_every == 0),
            o is Success ==> final(self).successes == old(self).successes + 1,
            o matches Outcome::Failure { kind: FailureKind::Unit, .. }
                ==> final(self).unit_failures == old(self).unit_failures + 1,
            o matches Outcome::Failure { kind: FailureKind::Join, .. }
                ==> final(self).join_failures == old(self).join_failures + 1,
            o is Timeout ==> final(self).timeouts == old(self).timeouts + 1,
            !(o is Success) ==> final(self).successes == old(self).successes,
            !(o matches Outcome::Failure { kind: FailureKind::Unit, .. })
                ==> final(self).unit_failures == old(self).unit_failures,
            !(o matches Outcome::Failure { kind: FailureKind::Join, .. })
                ==> final(self).join_failures == old(self).join_failures,
            !(o is Timeout) ==> final(self).timeouts == old(self).timeouts,
    {
        self.done = self.done + 1;
        match o {
            Outcome::Success { .. } => {
                self.successes = self.successes + 1;
            },
            Outcome::Failure { kind: FailureKind::Unit, .. } => {
                self.unit_failures = self.unit_failures + 1;
            },
            Outcome::Failure { kind: FailureKind::Join, .. } => {
                self.join_failures = self.join_failures + 1;
            },
            Outcome::Timeout => {
                self.timeouts = self.timeouts + 1;
            },
        }
        id % self.sample_every == 0
    }

    /// How many of the run's failures were failures at all — unit or join
    /// — as opposed to timeouts: the error count for rate accounting.
    pub fn failures(&self) -> (n: usize)
        requires
            self.wf(),
        ensures
            n == self.unit_failures + self.join_failures,
    {
        self.unit_failures + self.join_failures
    }

    /// Progress so far, as completed outcomes out of the target space.
    pub fn progress(&self) -> (p: (usize, usize))
        ensures
            p.0 == self.done,
            p.1 == self.total,
    {
        (self.done, self.total)
    }
}

} // verus!
