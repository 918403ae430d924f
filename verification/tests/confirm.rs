use distribution::confirm::{poll_step, PollDecision, PollOutcome, POLL_INTERVAL_MS};

#[test]
fn a_mined_report_ends_the_wait_with_its_block() {
    let d = poll_step(500, 120_000, &PollOutcome::Mined { block: Some(42), success: true });
    assert_eq!(d, PollDecision::Finished { block: Some(42) });
    // A mined-but-failed transaction still ends the wait with its block.
    let d = poll_step(500, 120_000, &PollOutcome::Mined { block: Some(43), success: false });
    assert_eq!(d, PollDecision::Finished { block: Some(43) });
}

#[test]
fn pending_and_failed_queries_poll_again() {
    let d = poll_step(500, 120_000, &PollOutcome::Pending);
    assert_eq!(d, PollDecision::ContinueAfter { wait_ms: POLL_INTERVAL_MS });
    let d = poll_step(500, 120_000, &PollOutcome::QueryFailed);
    assert_eq!(d, PollDecision::ContinueAfter { wait_ms: POLL_INTERVAL_MS });
}

#[test]
fn the_timeout_ends_the_wait_empty_handed() {
    let d = poll_step(120_000, 120_000, &PollOutcome::Pending);
    assert_eq!(d, PollDecision::Finished { block: None });
    // Even a mined report after the deadline is not consulted.
    let d = poll_step(120_001, 120_000, &PollOutcome::Mined { block: Some(1), success: true });
    assert_eq!(d, PollDecision::Finished { block: None });
}
