use vstd::prelude::*;

use crate::error::{is_terminal_error, Error};

verus! {

/// Delay before a converged object is reconciled again, to correct drift
/// even when no notification arrives.
pub const STEADY_REQUEUE_SECS: u64 = 300;

/// Delay before a pass that failed on a transient error is retried.
pub const TRANSIENT_REQUEUE_SECS: u64 = 60;

/// The result of one reconciliation pass.
#[derive(Debug, Clone, Copy, PartialEq, Eq)]
#[allow(inconsistent_fields)]
pub enum ReconcileOutcome {
    /// The children match the spec; `requeue_after` is `None` when there is
    /// nothing left to watch (the object is gone).
    Converged { requeue_after: Option<u64> },
    /// The pass failed in a way that a later pass may cure.
    Transient { error: Error, requeue_after: u64 },
    /// The object is malformed; retrying cannot help.
    Terminal { error: Error },
}

/// The requeue delay in seconds that an outcome asks for; `None` means no requeue.
pub open spec fn requeue_delay(o: ReconcileOutcome) -> Option<u64> {
    match o {
        ReconcileOutcome::Converged { requeue_after } => requeue_after,
        ReconcileOutcome::Transient { .. } => Some(TRANSIENT_REQUEUE_SECS),
        ReconcileOutcome::Terminal { .. } => None,
    }
}

/// The outcome of a pass that stopped on `e`.
pub open spec fn failure_outcome(e: Error) -> ReconcileOutcome {
    if is_terminal_error(e) {
        ReconcileOutcome::Terminal { error: e }
    } else {
        ReconcileOutcome::Transient { error: e, requeue_after: TRANSIENT_REQUEUE_SECS }
    }
}

/// The outcome of a pass that applied every child.
pub open spec fn converged_outcome() -> ReconcileOutcome {
    ReconcileOutcome::Converged { requeue_after: Some(STEADY_REQUEUE_SECS) }
}

/// When to reconcile again after a pass with outcome `o`, in seconds.
pub fn classify(o: &ReconcileOutcome) -> (r: Option<u64>)
    ensures
        r == requeue_delay(*o),
{
    match o {
        ReconcileOutcome::Converged { requeue_after } => *requeue_after,
        ReconcileOutcome::Transient { .. } => Some(TRANSIENT_REQUEUE_SECS),
        ReconcileOutcome::Terminal { .. } => None,
    }
}

/// The outcome of a pass that stopped on `e`: terminal for a malformed
/// object, transient for everything else.
pub fn outcome_of_error(e: Error) -> (r: ReconcileOutcome)
    ensures
        r == failure_outcome(e),
{
    if e.is_terminal() {
        ReconcileOutcome::Terminal { error: e }
    } else {
        ReconcileOutcome::Transient { error: e, requeue_after: TRANSIENT_REQUEUE_SECS }
    }
}

} // verus!
