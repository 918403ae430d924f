//! The confirmation waiter: polling one endpoint for inclusion of one
//! transaction until it is mined or a timeout passes.

use vstd::prelude::*;

verus! {

/// Milliseconds between two inclusion queries.
pub const POLL_INTERVAL_MS: u64 = 100;

/// What one receipt query reported.
#[derive(Debug, Clone, Copy, PartialEq, Eq)]
pub enum PollOutcome {
    /// The transaction is in a block; `success` tells whether it executed
    /// without error.
    Mined { block: Option<u64>, success: bool },
    /// The transaction is not yet in a block.
    Pending,
    /// The query itself failed; it is logged and polling continues.
    QueryFailed,
}

/// What the waiter does after one query.
#[derive(Debug, Clone, Copy, PartialEq, Eq)]
pub enum PollDecision {
    /// The wait is over, with the block the transaction landed in, if any.
    Finished { block: Option<u64> },
    /// Query again after this many milliseconds.
    ContinueAfter { wait_ms: u64 },
}

/// One step of the waiter: once the timeout has passed the wait ends empty-
/// handed; a mined report ends it with its block, whether or not the
/// execution succeeded; a pending report or a failed query polls again
/// after the fixed interval.
pub fn poll_step(elapsed_ms: u64, timeout_ms: u64, outcome: &PollOutcome) -> (r: PollDecision)
    ensures
        elapsed_ms >= timeout_ms ==> r == (PollDecision::Finished { block: None }),
        elapsed_ms < timeout_ms ==> match outcome {
            PollOutcome::Mined { block, success } => r == (PollDecision::Finished {
                block: *block,
            }),
            _ => r == (PollDecision::ContinueAfter { wait_ms: POLL_INTERVAL_MS }),
        },
{
    if elapsed_ms >= timeout_ms {
        return PollDecision::Finished { block: None };
    }
    match outcome {
        PollOutcome::Mined { block, success: _ } => PollDecision::Finished { block: *block },
        _ => PollDecision::ContinueAfter { wait_ms: POLL_INTERVAL_MS },
    }
}

} // verus!
