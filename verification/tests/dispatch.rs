use distribution::dispatch::{
    release_interval_ms, ContinuousDistributor, DistributionOptions, FiniteGroupDistributor,
};
use distribution::intent::SignedTransaction;

fn txs(n: u64) -> Vec<SignedTransaction> {
    (0..n).map(|i| SignedTransaction { payload: format!("0x{:02x}", i), nonce: 100 + i }).collect()
}

fn options(urls: usize, batch: usize, tps: u64) -> DistributionOptions {
    DistributionOptions {
        rpc_urls: (0..urls).map(|i| format!("http://node{}", i)).collect(),
        rpc_batch_size: batch,
        target_tps: tps,
        wait_for_confirmation: false,
        confirmation_timeout: 120,
    }
}

#[test]
fn interval_for_100_tps_in_chunks_of_10_is_100ms() {
    assert_eq!(release_interval_ms(100, 10), 100);
}

#[test]
fn interval_truncates_to_whole_milliseconds() {
    assert_eq!(release_interval_ms(3, 10), 3333);
    assert_eq!(release_interval_ms(1000, 1), 1);
}

#[test]
fn cycle_plan_staggers_chunks_by_the_interval() {
    let d = ContinuousDistributor::new(vec![1u8; 32], 100);
    let plan = d.plan_cycle(txs(25), &options(3, 10, 100));
    assert_eq!(plan.len(), 3);
    assert_eq!(plan[0].txs.len(), 10);
    assert_eq!(plan[1].txs.len(), 10);
    assert_eq!(plan[2].txs.len(), 5);
    // Chunk i is released at i * 100 ms and goes to endpoint i round-robin.
    assert_eq!(plan[0].delay_ms, 0);
    assert_eq!(plan[1].delay_ms, 100);
    assert_eq!(plan[2].delay_ms, 200);
    assert_eq!(plan[0].endpoint, 0);
    assert_eq!(plan[1].endpoint, 1);
    assert_eq!(plan[2].endpoint, 2);
    // The chunks hold the whole sequence in order: nonces stay contiguous.
    let flat: Vec<u64> = plan.iter().flat_map(|c| c.txs.iter().map(|t| t.nonce)).collect();
    let expected: Vec<u64> = (100..125).collect();
    assert_eq!(flat, expected);
}

#[test]
fn endpoints_wrap_around_the_url_list() {
    let d = ContinuousDistributor::new(vec![1u8; 32], 0);
    let plan = d.plan_cycle(txs(50), &options(2, 10, 100));
    assert_eq!(plan.len(), 5);
    let endpoints: Vec<usize> = plan.iter().map(|c| c.endpoint).collect();
    assert_eq!(endpoints, vec![0, 1, 0, 1, 0]);
}

#[test]
fn the_running_base_advances_by_what_was_produced() {
    let mut d = ContinuousDistributor::new(vec![1u8; 32], 100);
    assert_eq!(d.next_nonce, 100);
    d.advance(25);
    assert_eq!(d.next_nonce, 125);
    d.advance(0);
    assert_eq!(d.next_nonce, 125);
}

#[test]
fn finite_plan_groups_by_ten_with_a_reset_schedule() {
    let d = FiniteGroupDistributor { signer_key: vec![1u8; 32] };
    let plan = d.plan_submissions(txs(23), &options(2, 10, 100));
    assert_eq!(plan.len(), 23);
    for (j, p) in plan.iter().enumerate() {
        assert_eq!(p.tx.nonce, 100 + j as u64);
        assert_eq!(p.endpoint, j % 2);
        assert_eq!(p.group, j / 10);
        assert_eq!(p.delay_ms, (j as u64 % 10) * 100);
    }
    assert_eq!(plan[22].group, 2);
}
