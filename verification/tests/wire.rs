use distribution::intent::SignedTransaction;
use distribution::wire::{
    classify_response, submission_requests, ResponseVerdict, SubmissionState,
};

fn txs(n: u64) -> Vec<SignedTransaction> {
    (0..n).map(|i| SignedTransaction { payload: format!("0xaa{:02x}", i), nonce: i }).collect()
}

#[test]
fn requests_carry_sequential_ids_and_the_fixed_method() {
    let reqs = submission_requests(&txs(3));
    assert_eq!(reqs.len(), 3);
    for (i, q) in reqs.iter().enumerate() {
        assert_eq!(q.jsonrpc, "2.0");
        assert_eq!(q.id, i);
        assert_eq!(q.method, "eth_sendRawTransaction");
        assert_eq!(q.params.len(), 1);
        assert_eq!(q.params[0], format!("0xaa{:02x}", i));
    }
}

#[test]
fn one_error_among_five_items_is_one_rejection_and_no_retry() {
    let body = r#"[
        {"jsonrpc":"2.0","id":0,"result":"0x1"},
        {"jsonrpc":"2.0","id":1,"result":"0x2"},
        {"jsonrpc":"2.0","id":2,"error":{"code":-32000,"message":"nonce too low"}},
        {"jsonrpc":"2.0","id":3,"result":"0x3"},
        {"jsonrpc":"2.0","id":4,"result":"0x4"}
    ]"#;
    let verdict = classify_response(body);
    assert_eq!(verdict, ResponseVerdict::Accepted { rejected: 1 });
    let mut state = SubmissionState::new();
    state.note_response(&verdict);
    assert!(state.done);
    assert_eq!(state.rejections, 1);
    assert_eq!(state.transport_failures, 0);
    assert_eq!(state.parse_failures, 0);
}

#[test]
fn a_transport_timeout_then_a_clean_resend_logs_one_failure() {
    let mut state = SubmissionState::new();
    // The first attempt times out; the submission is retried.
    state.note_transport_failure();
    assert!(!state.done);
    // The resend succeeds and no item is rejected.
    let verdict = classify_response(r#"[{"jsonrpc":"2.0","id":0,"result":"0x1"}]"#);
    assert_eq!(verdict, ResponseVerdict::Accepted { rejected: 0 });
    state.note_response(&verdict);
    assert!(state.done);
    assert_eq!(state.transport_failures, 1);
    assert_eq!(state.rejections, 0);
}

#[test]
fn an_unparseable_body_is_retried() {
    let verdict = classify_response("leverage the blockchain");
    assert_eq!(verdict, ResponseVerdict::Unparseable);
    let mut state = SubmissionState::new();
    state.note_response(&verdict);
    assert!(!state.done);
    assert_eq!(state.parse_failures, 1);
    assert_eq!(state.rejections, 0);
}

#[test]
fn an_empty_parsed_response_ends_the_submission() {
    assert_eq!(classify_response("[]"), ResponseVerdict::Accepted { rejected: 0 });
}

#[test]
fn non_object_items_carry_no_error_marker() {
    assert_eq!(classify_response("[1, 2, 3]"), ResponseVerdict::Accepted { rejected: 0 });
}
