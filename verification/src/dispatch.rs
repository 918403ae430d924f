//! Delivery planning: pacing against a throughput target, partitioning a
//! signed sequence into endpoint-addressed chunks, and the two delivery
//! strategies' schedules.
//!
//! Network activity itself happens outside the library; these plans fix,
//! before any delivery starts, which transactions go to which endpoint and
//! with which release delay.  Chunk membership is never reshuffled.

use vstd::prelude::*;
use vstd::arithmetic::mul::lemma_mul_inequality;
use crate::grouping::{group_count, group_end};
use crate::intent::SignedTransaction;

verus! {

/// Transactions per group of the one-shot finite strategy.
pub const FINITE_GROUP_SIZE: usize = 10;

/// Run-wide delivery configuration.
#[derive(Debug)]
pub struct DistributionOptions {
    /// The remote endpoints, at least one.
    pub rpc_urls: Vec<String>,
    /// Transactions per submission chunk.
    pub rpc_batch_size: usize,
    /// Target throughput over the whole run, in transactions per second.
    pub target_tps: u64,
    /// Whether to poll for inclusion after delivery.
    pub wait_for_confirmation: bool,
    /// How long to poll for inclusion, in seconds.
    pub confirmation_timeout: u64,
}

impl Default for DistributionOptions {
    /// The default delivery configuration; the endpoint list must still be
    /// filled in.
    fn default() -> (d: Self)
        ensures
            d.rpc_urls@.len() == 0,
            d.rpc_batch_size == 100,
            d.target_tps == 10,
            d.wait_for_confirmation == true,
            d.confirmation_timeout == 120,
    {
        DistributionOptions {
            rpc_urls: Vec::new(),
            rpc_batch_size: 100,
            target_tps: 10,
            wait_for_confirmation: true,
            confirmation_timeout: 120,
        }
    }
}

/// Milliseconds between the launches of two successive chunks, so that
/// `target_tps` transactions per second leave in chunks of `chunk_size`.
///
/// The schedule rate-limits chunks, not individual transactions, so the
/// interval is `1000 ms / (target_tps / chunk_size)`, truncated to whole
/// milliseconds.
pub fn release_interval_ms(target_tps: u64, chunk_size: usize) -> (interval: u64)
    requires
        1 <= target_tps,
        1 <= chunk_size,
        1000 * chunk_size <= u64::MAX,
    ensures
        interval == 1000 * chunk_size as int / target_tps as int,
{
    (1000u64 * chunk_size as u64) / target_tps
}

/// The release interval a configuration yields.
pub open spec fn spec_release_interval(target_tps: u64, chunk_size: usize) -> int {
    1000 * chunk_size as int / target_tps as int
}

/// A contiguous group of signed transactions assigned to one endpoint for
/// one submission, with its release delay.  Membership is fixed at
/// partition time.
#[derive(Debug)]
pub struct DispatchChunk {
    /// The transactions of this chunk, in sequence order.
    pub txs: Vec<SignedTransaction>,
    /// Index into the endpoint list this chunk is addressed to.
    pub endpoint: usize,
    /// Milliseconds to wait before submitting this chunk.
    pub delay_ms: u64,
}

/// The transactions of a chunk sequence, in chunk order.
pub open spec fn chunks_txs(chunks: Seq<DispatchChunk>) -> Seq<SignedTransaction>
    decreases chunks.len(),
{
    if chunks.len() == 0 {
        Seq::empty()
    } else {
        chunks_txs(chunks.drop_last()) + chunks.last().txs@
    }
}

/// Appending a chunk appends its transactions.
pub proof fn lemma_chunks_txs_push(chunks: Seq<DispatchChunk>, c: DispatchChunk)
    ensures
        chunks_txs(chunks.push(c)) == chunks_txs(chunks) + c.txs@,
{
    assert(chunks.push(c).drop_last() =~= chunks);
    assert(chunks.push(c).last() == c);
}

/// Sequence numbers survive chunking: when a built sequence carries the
/// contiguous nonces `base + i` and is partitioned into chunks whose
/// concatenation is that sequence, reading the chunks back in order yields
/// exactly the same contiguous, strictly increasing nonces — delivery
/// order across chunks cannot change what was assigned.
pub proof fn lemma_chunks_keep_sequence(
    txs: Seq<SignedTransaction>,
    chunks: Seq<DispatchChunk>,
    base: u64,
)
    requires
        chunks_txs(chunks) == txs,
        base + txs.len() <= u64::MAX,
        forall|i: int| 0 <= i < txs.len() ==> (#[trigger] txs[i]).nonce == base + i,
    ensures
        forall|i: int|
            0 <= i < chunks_txs(chunks).len() ==> (#[trigger] chunks_txs(chunks)[i]).nonce == base
                + i,
        forall|i: int, j: int|
            0 <= i < j < chunks_txs(chunks).len() ==> chunks_txs(chunks)[i].nonce < chunks_txs(
                chunks,
            )[j].nonce,
{
}

/// The unbounded continuous strategy: repeated cycles of building and
/// delivering, with the running base sequence number owned by this value
/// and advanced by exactly the count of transactions produced each cycle.
#[derive(Debug)]
pub struct ContinuousDistributor {
    /// The signing identity's 32 key bytes.
    pub signer_key: Vec<u8>,
    /// The sequence number the next cycle starts from.  Queried from the
    /// network once at start, then tracked locally so that construction of
    /// a cycle never waits for delivery of the previous one.
    pub next_nonce: u64,
}

impl ContinuousDistributor {
    /// Starts a run from the sequence number the network reported.
    pub fn new(signer_key: Vec<u8>, initial_nonce: u64) -> (d: ContinuousDistributor)
        ensures
            d.signer_key == signer_key,
            d.next_nonce == initial_nonce,
    {
        ContinuousDistributor { signer_key, next_nonce: initial_nonce }
    }

    /// Advances the running base by exactly the count of transactions a
    /// cycle produced — never by an estimate.
    pub fn advance(&mut self, produced: u64)
        requires
            old(self).next_nonce + produced <= u64::MAX,
        ensures
            final(self).next_nonce == old(self).next_nonce + produced,
            final(self).signer_key == old(self).signer_key,
    {
        self.next_nonce = self.next_nonce + produced;
    }

    /// Partitions one cycle's signed sequence into endpoint-addressed
    /// chunks: chunk `i` holds the next `rpc_batch_size` transactions in
    /// order, goes to endpoint `i` round-robin, and is released at
    /// `i * release_interval`.  The chunks together hold exactly the input
    /// sequence.
    pub fn plan_cycle(&self, txs: Vec<SignedTransaction>, options: &DistributionOptions) -> (r: Vec<
        DispatchChunk,
    >)
        requires
            1 <= options.rpc_urls@.len(),
            1 <= options.rpc_batch_size,
            1 <= options.target_tps,
            1000 * options.rpc_batch_size <= u64::MAX,
            txs@.len() + options.rpc_batch_size <= usize::MAX,
            group_count(txs@.len() as int, options.rpc_batch_size as int) * spec_release_interval(
                options.target_tps,
                options.rpc_batch_size,
            ) <= u64::MAX,
        ensures
            chunks_txs(r@) == txs@,
            r@.len() == group_count(txs@.len() as int, options.rpc_batch_size as int),
            forall|ci: int|
                0 <= ci < r@.len() ==> (#[trigger] r@[ci]).txs@ == txs@.subrange(
                    ci * options.rpc_batch_size,
                    group_end(txs@.len() as int, options.rpc_batch_size as int, ci),
                ),
            forall|ci: int|
                0 <= ci < r@.len() ==> (#[trigger] r@[ci]).endpoint == ci % (
                options.rpc_urls@.len() as int),
            forall|ci: int|
                0 <= ci < r@.len() ==> (#[trigger] r@[ci]).delay_ms == ci * spec_release_interval(
                    options.target_tps,
                    options.rpc_batch_size,
                ),
    {
        let n = txs.len();
        let batch = options.rpc_batch_size;
        let n_urls = options.rpc_urls.len();
        let interval = release_interval_ms(options.target_tps, batch);
        let ghost orig = txs@;
        let ghost gc = group_count(n as int, batch as int);
        proof {
            crate::grouping::lemma_group_count_ge_zero(n as int, batch as int);
        }
        let mut rest = txs;
        let mut out: Vec<DispatchChunk> = Vec::new();
        let mut ci: usize = 0;
        let mut consumed: usize = 0;
        let mut delay: u64 = 0;
        while rest.len() > 0
            invariant
                1 <= batch,
                1 <= n_urls,
                n == orig.len(),
                n + batch <= usize::MAX,
                gc == group_count(n as int, batch as int),
                gc * interval <= u64::MAX,
                interval == spec_release_interval(options.target_tps, options.rpc_batch_size),
                batch == options.rpc_batch_size,
                n_urls == options.rpc_urls@.len(),
                consumed <= n,
                rest@ == orig.subrange(consumed as int, n as int),
                consumed == ci * batch || (consumed == n && ci * batch >= n),
                (ci - 1) * batch < n,
                out@.len() == ci,
                delay == ci * interval,
                chunks_txs(out@) == orig.subrange(0, consumed as int),
                forall|k: int|
                    0 <= k < ci ==> (#[trigger] out@[k]).txs@ == orig.subrange(
                        k * batch,
                        group_end(n as int, batch as int, k),
                    ),
                forall|k: int| 0 <= k < ci ==> (#[trigger] out@[k]).endpoint == k % (n_urls as int),
                forall|k: int| 0 <= k < ci ==> (#[trigger] out@[k]).delay_ms == k * interval,
            decreases rest@.len(),
        {
            let ghost pre = rest@;
            let ghost out_pre = out@;
            let take = if rest.len() > batch {
                batch
            } else {
                rest.len()
            };
            let mut chunk_txs = rest;
            let tail = chunk_txs.split_off(take);
            rest = tail;
            proof {
                assert((ci + 1) * batch == ci * batch + batch) by (nonlinear_arith);
                assert(chunk_txs@ == pre.subrange(0, take as int));
                assert forall|i: int| 0 <= i < take implies chunk_txs@[i] == orig[consumed + i] by {
                    assert(chunk_txs@[i] == pre[i]);
                    assert(pre[i] == orig.subrange(consumed as int, n as int)[i]);
                }
                assert(chunk_txs@ =~= orig.subrange(consumed as int, consumed + take));
                assert forall|i: int| 0 <= i < rest@.len() implies rest@[i] == orig[consumed + take
                    + i] by {
                    assert(rest@[i] == pre[take + i]);
                    assert(pre[take + i] == orig.subrange(consumed as int, n as int)[take + i]);
                }
                assert(rest@ =~= orig.subrange(consumed + take, n as int));
                assert(consumed + take == group_end(n as int, batch as int, ci as int));
            }
            let endpoint = ci % n_urls;
            out.push(DispatchChunk { txs: chunk_txs, endpoint, delay_ms: delay });
            proof {
                let x = out@.last();
                assert(out@ == out_pre.push(x));
                lemma_chunks_txs_push(out_pre, x);
                assert(orig.subrange(0, consumed as int) + orig.subrange(
                    consumed as int,
                    consumed + take,
                ) =~= orig.subrange(0, consumed + take));
                assert(ci + 1 <= gc) by {
                    assert(ci * batch < n);
                    crate::grouping::lemma_group_count_lower(n as int, batch as int, ci as int);
                }
                lemma_mul_inequality(ci + 1, gc, interval as int);
                assert((ci + 1) * interval == ci * interval + interval) by (nonlinear_arith);
            }
            consumed = consumed + take;
            ci = ci + 1;
            delay = delay + interval;
        }
        proof {
            assert(rest@.len() == 0);
            assert(consumed == n);
            assert(ci * batch >= n);
            crate::grouping::lemma_group_count_from_bounds(n as int, batch as int, ci as int);
            assert(orig.subrange(0, n as int) =~= orig);
        }
        out
    }
}

/// One planned submission of the finite strategy: one transaction, its
/// endpoint, its delay within its group, and its group.
#[derive(Debug)]
pub struct SubmissionPlan {
    /// The transaction to submit on its own.
    pub tx: SignedTransaction,
    /// Index into the endpoint list, round-robin over the whole sequence.
    pub endpoint: usize,
    /// Milliseconds to wait before this submission, counted from its
    /// group's start.
    pub delay_ms: u64,
    /// The group this submission belongs to; a group must finish before
    /// the next group starts.
    pub group: usize,
}

/// The one-shot finite strategy: a single build, delivered one transaction
/// per request, in groups with a whole-group barrier between them for
/// stronger back-pressure.
#[derive(Debug)]
pub struct FiniteGroupDistributor {
    /// The signing identity's 32 key bytes.
    pub signer_key: Vec<u8>,
}

impl FiniteGroupDistributor {
    /// Plans the whole delivery: transaction `j` goes alone to endpoint
    /// `j` round-robin, in group `j / FINITE_GROUP_SIZE`, released at its
    /// position within the group times the release interval.  The plans
    /// together hold exactly the input sequence.
    pub fn plan_submissions(
        &self,
        txs: Vec<SignedTransaction>,
        options: &DistributionOptions,
    ) -> (r: Vec<SubmissionPlan>)
        requires
            1 <= options.rpc_urls@.len(),
            1 <= options.rpc_batch_size,
            1 <= options.target_tps,
            1000 * options.rpc_batch_size <= u64::MAX,
            FINITE_GROUP_SIZE * spec_release_interval(options.target_tps, options.rpc_batch_size)
                <= u64::MAX,
        ensures
            r@.len() == txs@.len(),
            forall|j: int| 0 <= j < r@.len() ==> (#[trigger] r@[j]).tx == txs@[j],
            forall|j: int|
                0 <= j < r@.len() ==> (#[trigger] r@[j]).endpoint == j % (
                options.rpc_urls@.len() as int),
            forall|j: int|
                0 <= j < r@.len() ==> (#[trigger] r@[j]).group == j / (FINITE_GROUP_SIZE as int),
            forall|j: int|
                0 <= j < r@.len() ==> (#[trigger] r@[j]).delay_ms == (j % (
                FINITE_GROUP_SIZE as int)) * spec_release_interval(
                    options.target_tps,
                    options.rpc_batch_size,
                ),
    {
        let n = txs.len();
        let n_urls = options.rpc_urls.len();
        let interval = release_interval_ms(options.target_tps, options.rpc_batch_size);
        let ghost orig = txs@;
        let mut rest = txs;
        let mut out: Vec<SubmissionPlan> = Vec::new();
        let mut j: usize = 0;
        while rest.len() > 0
            invariant
                1 <= n_urls,
                n == orig.len(),
                n_urls == options.rpc_urls@.len(),
                interval == spec_release_interval(options.target_tps, options.rpc_batch_size),
                FINITE_GROUP_SIZE * interval <= u64::MAX,
                j <= n,
                rest@ == orig.subrange(j as int, n as int),
                out@.len() == j,
                forall|k: int| 0 <= k < j ==> (#[trigger] out@[k]).tx == orig[k],
                forall|k: int| 0 <= k < j ==> (#[trigger] out@[k]).endpoint == k % (n_urls as int),
                forall|k: int|
                    0 <= k < j ==> (#[trigger] out@[k]).group == k / (FINITE_GROUP_SIZE as int),
                forall|k: int|
                    0 <= k < j ==> (#[trigger] out@[k]).delay_ms == (k % (FINITE_GROUP_SIZE as int))
                        * interval,
            decreases rest@.len(),
        {
            let mut head = rest;
            let tail = head.split_off(1);
            rest = tail;
            let tx = match head.pop() {
                Some(t) => t,
                None => {
                    proof {
                        assert(false);
                    }
                    return out;
                },
            };
            proof {
                assert(head@.len() == 0);
                assert(tx == orig[j as int]);
                assert(rest@ =~= orig.subrange(j + 1, n as int));
            }
            let endpoint = j % n_urls;
            let group = j / FINITE_GROUP_SIZE;
            let pos = j % FINITE_GROUP_SIZE;
            proof {
                lemma_mul_inequality(pos as int, FINITE_GROUP_SIZE - 1, interval as int);
                assert((FINITE_GROUP_SIZE - 1) * interval + interval == FINITE_GROUP_SIZE
                    * interval) by (nonlinear_arith);
            }
            let delay = (pos as u64) * interval;
            out.push(SubmissionPlan { tx, endpoint, delay_ms: delay, group });
            j = j + 1;
        }
        proof {
            assert(j == n);
        }
        out
    }
}

} // verus!
