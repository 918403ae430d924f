//! The batch submission protocol.
//!
//! A group of signed transactions is encoded as one aggregate request: an
//! ordered sequence of records, each carrying a sequential local id, the
//! fixed "submit raw transaction" method name and one payload.  A
//! submission is retried indefinitely on transport or parse failure and
//! ends on any parseable response; items the endpoint rejects are logged
//! and never retried.

use vstd::prelude::*;
use crate::intent::SignedTransaction;

verus! {

/// One record of the aggregate submission request.
#[derive(Debug)]
pub struct JsonRpcRequest {
    /// Protocol version, always `2.0`.
    pub jsonrpc: String,
    /// Local id of the record, matched against the response items.
    pub id: usize,
    /// The method invoked, always the raw-transaction submission.
    pub method: String,
    /// The method's parameters: exactly the one encoded payload.
    pub params: Vec<String>,
}

/// Encodes a group of signed transactions as the records of one aggregate
/// submission request: record `i` carries id `i` and the `i`-th payload.
pub fn submission_requests(txs: &Vec<SignedTransaction>) -> (r: Vec<JsonRpcRequest>)
    ensures
        r@.len() == txs@.len(),
        forall|i: int|
            0 <= i < r@.len() ==> {
                let q = #[trigger] r@[i];
                &&& q.jsonrpc@ == "2.0"@
                &&& q.id == i
                &&& q.method@ == "eth_sendRawTransaction"@
                &&& q.params@.len() == 1
                &&& q.params@[0]@ == txs@[i].payload@
            },
{
    let mut out: Vec<JsonRpcRequest> = Vec::new();
    let mut i: usize = 0;
    while i < txs.len()
        invariant
            i <= txs@.len(),
            out@.len() == i,
            forall|j: int|
                0 <= j < i ==> {
                    let q = #[trigger] out@[j];
                    &&& q.jsonrpc@ == "2.0"@
                    &&& q.id == j
                    &&& q.method@ == "eth_sendRawTransaction"@
                    &&& q.params@.len() == 1
                    &&& q.params@[0]@ == txs@[j].payload@
                },
        decreases txs@.len() - i,
    {
        let mut params: Vec<String> = Vec::new();
        params.push(txs[i].payload.clone());
        let record = JsonRpcRequest {
            jsonrpc: "2.0".to_owned(),
            id: i,
            method: "eth_sendRawTransaction".to_owned(),
            params,
        };
        out.push(record);
        i = i + 1;
    }
    out
}

/// For each item of a response that parses as a sequence of records,
/// whether the item carries an error marker; nothing for a response that
/// does not parse.
pub uninterp spec fn error_flags_of(text: Seq<char>) -> Option<Seq<bool>>;

/// Relies on serde_json::from_str and serde_json::Value::get: whether the
/// text parses as a JSON array, and which of its items are objects
/// carrying an "error" member, are functions of the text alone.
#[verifier::external_body]
fn response_error_flags(text: &str) -> (r: Option<Vec<bool>>)
    ensures
        (r is Some) == (error_flags_of(text@) is Some),
        r matches Some(v) ==> error_flags_of(text@) == Some(v@),
{
    let items: Vec<serde_json::Value> = serde_json::from_str(text).ok()?;
    Some(items.iter().map(|item| item.get("error").is_some()).collect())
}

/// How many items of a response carry an error marker.
pub open spec fn count_rejections(flags: Seq<bool>) -> int
    decreases flags.len(),
{
    if flags.len() == 0 {
        0
    } else {
        count_rejections(flags.drop_last()) + if flags.last() {
            1int
        } else {
            0int
        }
    }
}

/// There are never more rejections than items.
pub proof fn lemma_count_rejections_le_len(flags: Seq<bool>)
    ensures
        0 <= count_rejections(flags) <= flags.len(),
    decreases flags.len(),
{
    if flags.len() > 0 {
        lemma_count_rejections_le_len(flags.drop_last());
    }
}

/// What one response text means for a submission.
#[derive(Debug, Clone, Copy, PartialEq, Eq)]
pub enum ResponseVerdict {
    /// The body did not parse; the submission is retried.
    Unparseable,
    /// The body parsed; the submission is over, with this many items
    /// rejected by the endpoint.
    Accepted { rejected: usize },
}

/// Reads a response body: a parseable response ends the submission and
/// counts the endpoint-rejected items; anything else asks for a retry.
pub fn classify_response(text: &str) -> (r: ResponseVerdict)
    ensures
        error_flags_of(text@) is None ==> r == ResponseVerdict::Unparseable,
        error_flags_of(text@) matches Some(flags) ==> r == (ResponseVerdict::Accepted {
            rejected: count_rejections(flags) as usize,
        }),
{
    let flags = match response_error_flags(text) {
        Some(f) => f,
        None => {
            return ResponseVerdict::Unparseable;
        },
    };
    let ghost spec_flags = error_flags_of(text@)->0;
    let mut rejected: usize = 0;
    let mut i: usize = 0;
    proof {
        lemma_count_rejections_le_len(spec_flags);
    }
    while i < flags.len()
        invariant
            i <= flags@.len(),
            flags@ == spec_flags,
            rejected == count_rejections(spec_flags.subrange(0, i as int)),
            rejected <= i,
        decreases flags@.len() - i,
    {
        proof {
            assert(spec_flags.subrange(0, i + 1) =~= spec_flags.subrange(0, i as int).push(
                spec_flags[i as int],
            ));
            lemma_count_push(spec_flags.subrange(0, i as int), spec_flags[i as int]);
        }
        if flags[i] {
            rejected = rejected + 1;
        }
        i = i + 1;
    }
    proof {
        assert(spec_flags.subrange(0, spec_flags.len() as int) =~= spec_flags);
    }
    ResponseVerdict::Accepted { rejected }
}

/// Appending a flag adds its rejection, if it is one.
proof fn lemma_count_push(flags: Seq<bool>, b: bool)
    ensures
        count_rejections(flags.push(b)) == count_rejections(flags) + if b {
            1int
        } else {
            0int
        },
{
    assert(flags.push(b).drop_last() =~= flags);
    assert(flags.push(b).last() == b);
}

/// The running record of one submission: how often transport failed, how
/// often a response did not parse, how many items the endpoint rejected,
/// and whether the submission has ended.
#[derive(Debug, Clone, Copy, PartialEq, Eq)]
pub struct SubmissionState {
    /// Transport failures logged so far; each one is retried.
    pub transport_failures: u64,
    /// Unparseable responses logged so far; each one is retried.
    pub parse_failures: u64,
    /// Items the endpoint rejected; terminal for those items, never
    /// retried.
    pub rejections: u64,
    /// Whether a parseable response has ended the submission.
    pub done: bool,
}

impl SubmissionState {
    /// A submission that has not yet attempted anything.
    pub fn new() -> (s: SubmissionState)
        ensures
            s.transport_failures == 0,
            s.parse_failures == 0,
            s.rejections == 0,
            !s.done,
    {
        SubmissionState { transport_failures: 0, parse_failures: 0, rejections: 0, done: false }
    }

    /// A transport failure: logged, and the identical request is sent
    /// again; the submission never ends this way.
    pub fn note_transport_failure(&mut self)
        requires
            !old(self).done,
            old(self).transport_failures < u64::MAX,
        ensures
            final(self).transport_failures == old(self).transport_failures + 1,
            final(self).parse_failures == old(self).parse_failures,
            final(self).rejections == old(self).rejections,
            final(self).done == old(self).done,
    {
        self.transport_failures = self.transport_failures + 1;
    }

    /// A response: an unparseable body is logged and retried; a parseable
    /// body ends the submission, with its rejected items logged — however
    /// many were rejected.
    pub fn note_response(&mut self, verdict: &ResponseVerdict)
        requires
            !old(self).done,
            old(self).parse_failures < u64::MAX,
        ensures
            final(self).transport_failures == old(self).transport_failures,
            match verdict {
                ResponseVerdict::Unparseable => {
                    &&& final(self).parse_failures == old(self).parse_failures + 1
                    &&& final(self).rejections == old(self).rejections
                    &&& !final(self).done
                },
                ResponseVerdict::Accepted { rejected } => {
                    &&& final(self).parse_failures == old(self).parse_failures
                    &&& final(self).rejections == *rejected as u64
                    &&& final(self).done
                },
            },
    {
        match verdict {
            ResponseVerdict::Unparseable => {
                self.parse_failures = self.parse_failures + 1;
            },
            ResponseVerdict::Accepted { rejected } => {
                self.rejections = *rejected as u64;
                self.done = true;
            },
        }
    }
}

} // verus!
