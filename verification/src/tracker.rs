//! Run-wide accounting of work units: how many were ever started and how
//! many are executing right now.

use vstd::prelude::*;

verus! {

/// The run's counters. `submitted` counts every unit ever started and never
/// decreases; `active` counts units started and not yet completed. Both are
/// introspection only: no caller may rely on them for correctness.
#[derive(Clone, Copy, Debug, PartialEq, Eq, Structural)]
pub struct RunCounters {
    pub active: usize,
    pub submitted: usize,
}

impl RunCounters {
    /// A counter pair can never have seen more completions than starts.
    pub open spec fn wf(self) -> bool {
        self.active <= self.submitted
    }

    /// Fresh counters for a new run: nothing submitted, nothing active.
    pub fn new() -> (c: RunCounters)
        ensures
            c == (RunCounters { active: 0usize, submitted: 0usize }),
            c.wf(),
    {
        RunCounters { active: 0, submitted: 0 }
    }

    /// Record that one unit has started: both counters advance by one.
    pub fn on_start(&mut self)
        requires
            old(self).wf(),
            old(self).submitted < usize::MAX,
        ensures
            final(self).submitted == old(self).submitted + 1,
            final(self).active == old(self).active + 1,
            final(self).wf(),
    {
        self.active = self.active + 1;
        self.submitted = self.submitted + 1;
    }

    /// Record that one unit has completed — by success, failure or timeout,
    /// whichever occurred: `active` falls by one, `submitted` is untouched.
    pub fn on_complete(&mut self)
        requires
            old(self).wf(),
            old(self).active >= 1,
        ensures
            final(self).submitted == old(self).submitted,
            final(self).active == old(self).active - 1,
            final(self).wf(),
    {
        self.active = self.active - 1;
    }

    /// Units currently executing.
    pub fn active(&self) -> (n: usize)
        ensures
            n == self.active,
    {
        self.active
    }

    /// Units ever started.
    pub fn submitted(&self) -> (n: usize)
        ensures
            n == self.submitted,
    {
        self.submitted
    }
}

} // verus!
