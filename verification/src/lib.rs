//! Bounded-concurrency load-generation core.
//!
//! The library enumerates a finite target space of (local endpoint, remote
//! endpoint) work descriptors, drives at most `concurrency` work units at a
//! time through a pull-based sliding window, distinguishes success, failure
//! and timeout outcomes, and keeps verified accounting of submitted, active
//! and completed units. All I/O (address resolution, the remote sessions
//! themselves, timers) lives outside the library; callers feed events in and
//! carry actions out.

pub mod aggregator;
pub mod endpoint;
pub mod enumerate;
pub mod outcome;
pub mod run;
pub mod scheduler;
pub mod tracker;
