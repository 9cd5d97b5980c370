//! Outcomes of work units and the classification of raw unit events.

use vstd::prelude::*;

verus! {

/// How a failed unit failed: either the unit's own logic reported an error
/// (connection refused, authentication rejected, protocol error), or the
/// execution context could not run or be joined at all. The two classes are
/// reported separately; neither aborts the run.
#[derive(Clone, Copy, Debug, PartialEq, Eq, Structural)]
pub enum FailureKind {
    /// The executor itself returned an error.
    Unit,
    /// The unit could not be started or observed by the runtime.
    Join,
}

/// The result of exactly one work unit. Produced exactly once per
/// descriptor, either by the executor (success or failure) or by the
/// scheduler's own deadline enforcement (timeout); the executor itself never
/// produces `Timeout`.
#[derive(Debug)]
pub enum Outcome {
    /// The unit ran to completion; `exit_code` is the remote exit status if
    /// one was reported, and `stdout`/`stderr` the captured output bytes.
    Success { exit_code: Option<u32>, stdout: Vec<u8>, stderr: Vec<u8> },
    /// The unit completed with an error; the run continues.
    Failure { kind: FailureKind, detail: String },
    /// The configured deadline elapsed before the unit returned; the unit
    /// was cancelled and its slot reclaimed.
    Timeout,
}

/// What the runtime observed of one unit, before classification: the
/// executor returned (with output or with its own error), the deadline
/// elapsed first, or the unit could not be run or joined at all.
#[derive(Debug)]
pub enum UnitEvent {
    Finished { exit_code: Option<u32>, stdout: Vec<u8>, stderr: Vec<u8> },
    UnitFailed { detail: String },
    DeadlineElapsed,
    JoinFailed { detail: String },
}

impl Outcome {
    pub open spec fn is_success(self) -> bool {
        self is Success
    }

    pub open spec fn is_failure(self) -> bool {
        self is Failure
    }

    pub open spec fn is_timeout(self) -> bool {
        self is Timeout
    }
}

/// Turn the runtime's observation of one unit into its outcome.
///
/// A deadline that elapsed is a timeout and nothing else; an executor error
/// is a unit-level failure; a unit the runtime could not run or join is a
/// join-level failure, distinct from any error the executor could report;
/// and a unit that returned is a success carrying its output unchanged.
pub fn classify(ev: UnitEvent) -> (o: Outcome)
    ensures
        o is Timeout <==> ev is DeadlineElapsed,
        ev matches UnitEvent::Finished { exit_code, stdout, stderr } ==> o == (Outcome::Success {
            exit_code,
            stdout,
            stderr,
        }),
        ev matches UnitEvent::UnitFailed { detail } ==> o == (Outcome::Failure {
            kind: FailureKind::Unit,
            detail,
        }),
        ev matches UnitEvent::JoinFailed { detail } ==> o == (Outcome::Failure {
            kind: FailureKind::Join,
            detail,
        }),
{
    match ev {
        UnitEvent::Finished { exit_code, stdout, stderr } => Outcome::Success {
            exit_code,
            stdout,
            stderr,
        },
        UnitEvent::UnitFailed { detail } => Outcome::Failure { kind: FailureKind::Unit, detail },
        UnitEvent::DeadlineElapsed => Outcome::Timeout,
        UnitEvent::JoinFailed { detail } => Outcome::Failure { kind: FailureKind::Join, detail },
    }
}

} // verus!
