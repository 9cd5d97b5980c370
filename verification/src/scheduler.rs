//! The bounded-concurrency scheduler: a pull-based sliding window over the
//! target space.
//!
//! The scheduler is the run's decision core, kept free of I/O: the caller
//! asks it which unit to start next (`start_next`), runs that unit under
//! the configured deadline, and reports the unit's end (`complete`). The
//! scheduler guarantees that at most `concurrency` units are ever in flight
//! at once, that a freed slot can be refilled immediately regardless of
//! which other units still run, and that every descriptor is consumed
//! exactly once and completed exactly once.

use vstd::prelude::*;

use crate::endpoint::WorkDescriptor;
use crate::tracker::RunCounters;

verus! {

/// The state of one run: the ordered target space, the window bound, and
/// the accounting of which descriptors are pending, in flight or done.
///
/// A descriptor is identified by its index in `targets`. Indices below
/// `next` have been submitted; each of them sits in exactly one of
/// `in_flight` (submission order) and `completed` (completion order).
pub struct Scheduler {
    pub targets: Vec<WorkDescriptor>,
    pub concurrency: usize,
    pub next: usize,
    pub in_flight: Vec<usize>,
    pub completed: Vec<usize>,
    pub counters: RunCounters,
}

impl Scheduler {
    /// Well-formedness: the window never exceeds `concurrency`; submitted
    /// units split exactly between in-flight and completed, with no unit in
    /// both and none twice anywhere; the counters mirror that accounting.
    pub open spec fn wf(self) -> bool {
        &&& self.concurrency >= 1
        &&& self.next <= self.targets@.len()
        &&& self.in_flight@.no_duplicates()
        &&& self.completed@.no_duplicates()
        &&& forall|k: int|
            0 <= k < self.in_flight@.len() ==> #[trigger] self.in_flight@[k] < self.next
        &&& forall|k: int|
            0 <= k < self.completed@.len() ==> #[trigger] self.completed@[k] < self.next
        &&& forall|k: int|
            0 <= k < self.in_flight@.len() ==> !self.completed@.contains(
                #[trigger] self.in_flight@[k],
            )
        &&& self.in_flight@.len() + self.completed@.len() == self.next
        &&& self.in_flight@.len() <= self.concurrency
        &&& self.counters.active == self.in_flight@.len()
        &&& self.counters.submitted == self.next
    }

    /// A new run over `targets` with a window of `concurrency` slots:
    /// nothing submitted, nothing in flight, nothing completed.
    pub fn new(targets: Vec<WorkDescriptor>, concurrency: usize) -> (s: Scheduler)
        requires
            concurrency >= 1,
        ensures
            s.wf(),
            s.targets == targets,
            s.concurrency == concurrency,
            s.next == 0,
            s.in_flight@ =~= Seq::<usize>::empty(),
            s.completed@ =~= Seq::<usize>::empty(),
            s.counters == (RunCounters { active: 0usize, submitted: 0usize }),
    {
        Scheduler {
            targets,
            concurrency,
            next: 0,
            in_flight: Vec::new(),
            completed: Vec::new(),
            counters: RunCounters::new(),
        }
    }

    /// Hand out the next unit to start, if a slot is free and descriptors
    /// remain: exactly then is `Some((id, descriptor))` returned, and the
    /// unit counts as submitted and in flight from this instant. With a
    /// full window or an exhausted target space, nothing changes.
    pub fn start_next(&mut self) -> (r: Option<(usize, WorkDescriptor)>)
        requires
            old(self).wf(),
        ensures
            final(self).wf(),
            final(self).targets == old(self).targets,
            final(self).concurrency == old(self).concurrency,
            final(self).completed == old(self).completed,
            r is Some <==> (old(self).in_flight@.len() < old(self).concurrency && old(
                self,
            ).next < old(self).targets@.len()),
            r matches Some((id, d)) ==> {
                &&& id == old(self).next
                &&& d == old(self).targets@[id as int]
                &&& final(self).next == old(self).next + 1
                &&& final(self).in_flight@ == old(self).in_flight@.push(id)
                &&& final(self).counters.submitted == old(self).counters.submitted + 1
                &&& final(self).counters.active == old(self).counters.active + 1
            },
            r is None ==> *final(self) == *old(self),
    {
        if self.in_flight.len() < self.concurrency && self.next < self.targets.len() {
            let id = self.next;
            let d = self.targets[id];
            proof {
                assert(!self.in_flight@.contains(id)) by {
                    assert(forall|k: int|
                        0 <= k < self.in_flight@.len() ==> #[trigger] self.in_flight@[k] != id);
                }
            }
            self.next = self.next + 1;
            self.in_flight.push(id);
            self.counters.on_start();
            proof {
                let nf = self.in_flight@;
                let of = old(self).in_flight@;
                assert forall|a: int, b: int| 0 <= a < b < nf.len() implies nf[a] != nf[b] by {
                    if b < nf.len() - 1 {
                        assert(nf[a] == of[a] && nf[b] == of[b]);
                    } else {
                        assert(nf[b] == id && nf[a] == of[a]);
                    }
                }
            }
            Some((id, d))
        } else {
            None
        }
    }

    /// Record that unit `id` has completed — by success, failure or
    /// timeout, whichever occurred: its slot is freed at this instant, its
    /// id moves from in-flight to completed, never to return to either.
    pub fn complete(&mut self, id: usize)
        requires
            old(self).wf(),
            old(self).in_flight@.contains(id),
        ensures
            final(self).wf(),
            final(self).targets == old(self).targets,
            final(self).concurrency == old(self).concurrency,
            final(self).next == old(self).next,
            final(self).in_flight@ == old(self).in_flight@.remove_value(id),
            final(self).in_flight@.len() == old(self).in_flight@.len() - 1,
            final(self).in_flight@.len() < final(self).concurrency,
            !final(self).in_flight@.contains(id),
            final(self).completed@ == old(self).completed@.push(id),
            final(self).counters.submitted == old(self).counters.submitted,
            final(self).counters.active == old(self).counters.active - 1,
    {
        let ghost of = old(self).in_flight@;
        let mut j: usize = 0;
        let n = self.in_flight.len();
        while j < n && self.in_flight[j] != id
            invariant
                n == self.in_flight@.len(),
                j <= n,
                self.in_flight@.contains(id),
                forall|k: int| 0 <= k < j ==> #[trigger] self.in_flight@[k] != id,
            decreases n - j,
        {
            j = j + 1;
        }
        proof {
            if j == n {
                let w = choose|w: int| 0 <= w < of.len() && of[w] == id;
                assert(of[w] != id);
            }
            assert(j < n && of[j as int] == id);
            of.index_of_first_ensures(id);
            assert(of.index_of_first(id) matches Some(fi) && fi == j) by {
                let fi = of.index_of_first(id).unwrap();
                if fi < j {
                    assert(of[fi] != id);
                } else if fi > j {
                    assert(of[j as int] != id);
                }
            }
            of.remove_ensures(j as int);
        }
        self.in_flight.remove(j);
        proof {
            let nf = self.in_flight@;
            assert(nf == of.remove_value(id));
            assert forall|a: int, b: int| 0 <= a < b < nf.len() implies nf[a] != nf[b] by {
                let oa: int = if a < j { a } else { a + 1 };
                let ob: int = if b < j { b } else { b + 1 };
                assert(nf[a] == of[oa] && nf[b] == of[ob]);
            }
            assert(!nf.contains(id)) by {
                assert forall|k: int| 0 <= k < nf.len() implies nf[k] != id by {
                    let ok: int = if k < j { k } else { k + 1 };
                    assert(nf[k] == of[ok]);
                    if ok != j {
                        assert(of[ok] != id);
                    }
                }
            }
            assert forall|k: int| 0 <= k < nf.len() implies #[trigger] nf[k] < old(self).next by {
                let ok: int = if k < j { k } else { k + 1 };
                assert(nf[k] == of[ok]);
            }
            assert(!old(self).completed@.contains(id)) by {
                assert(of[j as int] == id);
            }
        }
        self.completed.push(id);
        self.counters.on_complete();
        proof {
            let nc = self.completed@;
            let oc = old(self).completed@;
            let nf = self.in_flight@;
            assert forall|a: int, b: int| 0 <= a < b < nc.len() implies nc[a] != nc[b] by {
                if b < nc.len() - 1 {
                    assert(nc[a] == oc[a] && nc[b] == oc[b]);
                } else {
                    assert(nc[b] == id && nc[a] == oc[a]);
                    assert(oc.contains(oc[a]));
                }
            }
            assert forall|k: int| 0 <= k < nf.len() implies !nc.contains(#[trigger] nf[k]) by {
                assert(!oc.contains(nf[k])) by {
                    let ok: int = if k < j { k } else { k + 1 };
                    assert(nf[k] == of[ok]);
                }
                assert(nf[k] != id);
                assert forall|w: int| 0 <= w < nc.len() implies nc[w] != nf[k] by {
                    if w < nc.len() - 1 {
                        assert(nc[w] == oc[w]);
                        assert(oc.contains(oc[w]));
                    } else {
                        assert(nc[w] == id);
                    }
                }
            }
        }
    }

    /// The window bound: in every reachable state, the number of units
    /// started and not yet completed — equivalently, the tracker's `active`
    /// count — is at most `concurrency`.
    pub proof fn lemma_window_bounded(self)
        requires
            self.wf(),
        ensures
            self.in_flight@.len() <= self.concurrency,
            self.counters.active <= self.concurrency,
    {
    }

    /// Exactly-once delivery: once every descriptor has been submitted and
    /// no unit remains in flight, the completion log holds exactly one
    /// entry per descriptor — as many outcomes as descriptors, none twice,
    /// none missing — and the active count is back to zero.
    pub proof fn lemma_run_complete(self)
        requires
            self.wf(),
            self.next == self.targets@.len(),
            self.in_flight@.len() == 0,
        ensures
            self.completed@.len() == self.targets@.len(),
            self.completed@.no_duplicates(),
            forall|id: int|
                0 <= id < self.targets@.len() ==> self.completed@.contains(#[trigger] (id as usize)),
            self.counters.active == 0,
            self.counters.submitted == self.targets@.len(),
    {
        broadcast use vstd::seq_lib::seq_to_set_is_finite;

        let c = self.completed@;
        let n = self.targets@.len() as int;
        let ci = c.map_values(|x: usize| x as int);
        assert(ci.no_duplicates()) by {
            assert forall|a: int, b: int|
                0 <= a < ci.len() && 0 <= b < ci.len() && a != b implies ci[a] != ci[b] by {
                assert(c[a] != c[b]);
            }
        }
        ci.unique_seq_to_set();
        vstd::set_lib::lemma_int_range(0, n);
        assert(ci.to_set().subset_of(vstd::set_lib::set_int_range(0, n))) by {
            assert forall|x: int| ci.to_set().contains(x) implies 0 <= x < n by {
                let k = choose|k: int| 0 <= k < ci.len() && ci[k] == x;
                assert(c[k] < self.next);
            }
        }
        vstd::set_lib::lemma_subset_equality(ci.to_set(), vstd::set_lib::set_int_range(0, n));
        assert forall|id: int| 0 <= id < n implies c.contains(#[trigger] (id as usize)) by {
            assert(vstd::set_lib::set_int_range(0, n).contains(id));
            assert(ci.to_set().contains(id));
            let k = choose|k: int| 0 <= k < ci.len() && ci[k] == id;
            assert(c[k] == id as usize);
            assert(c.contains(c[k]));
        }
    }

    /// Whether the run is over: every descriptor submitted and every
    /// submitted unit completed.
    pub fn is_done(&self) -> (b: bool)
        requires
            self.wf(),
        ensures
            b == (self.next == self.targets@.len() && self.in_flight@.len() == 0),
    {
        self.next == self.targets.len() && self.in_flight.len() == 0
    }

    /// How many outcomes have been delivered so far.
    pub fn completed_count(&self) -> (n: usize)
        ensures
            n == self.completed@.len(),
    {
        self.completed.len()
    }

    /// How many units are in flight right now.
    pub fn in_flight_count(&self) -> (n: usize)
        ensures
            n == self.in_flight@.len(),
    {
        self.in_flight.len()
    }

    /// The run's counters, for introspection.
    pub fn counters(&self) -> (c: RunCounters)
        ensures
            c == self.counters,
    {
        self.counters
    }
}

} // verus!
