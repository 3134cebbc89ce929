use vstd::prelude::*;
use crate::types::{ProcessStatus, WorkItem};

verus! {

/// Whether a text is a well-formed transaction signature: base58 that
/// decodes to exactly 64 bytes.
pub uninterp spec fn parses_as_signature(s: Seq<char>) -> bool;

/// Relies on `solana_sdk::signature::Signature::from_str`, for whether the
/// text decodes as a signature; text longer than 88 bytes it refuses before
/// decoding.
#[verifier::external_body]
fn signature_parses(s: &str) -> (r: bool)
    ensures
        r == parses_as_signature(s@),
        s@.len() > 88 ==> !r,
{
    <solana_sdk::signature::Signature as std::str::FromStr>::from_str(s).is_ok()
}

/// How one processing attempt of a work item ended.
#[derive(Clone, Copy, Debug, PartialEq, Eq, Structural)]
pub enum AttemptOutcome {
    /// The detail source returned the transaction.
    Fetched,
    /// The stored identifier is not a signature; nothing was fetched.
    InvalidSignature,
    /// The detail source has no such transaction.
    NotFound,
    /// The detail source did not answer in time.
    Timeout,
    /// The detail source's answer could not be decoded.
    DecodeError,
    /// The detail source could not be reached.
    Transport,
}

/// The retry count after one more failure: one more, held at the
/// largest count.
pub open spec fn next_retries(retries: u64) -> u64 {
    if retries < u64::MAX {
        (retries + 1) as u64
    } else {
        retries
    }
}

/// The item after an attempt that ended with `outcome` at time `now`.
/// A processed item stays as it is; a fetched one becomes processed at `now`
/// with its retries kept; any other outcome marks it failed with one more
/// retry. Nothing else of the item changes.
pub open spec fn after_attempt(item: WorkItem, outcome: AttemptOutcome, now: i64) -> WorkItem {
    if item.status == ProcessStatus::Processed {
        item
    } else if outcome == AttemptOutcome::Fetched {
        WorkItem { status: ProcessStatus::Processed, processed_at: Some(now), ..item }
    } else {
        WorkItem { status: ProcessStatus::Failed, retries: next_retries(item.retries), ..item }
    }
}

/// The signature to request the item's detail with, or `None` where the
/// stored identifier is not a well-formed signature.
pub fn detail_request(item: &WorkItem) -> (r: Option<String>)
    ensures
        r is Some <==> parses_as_signature(item.transaction_id@),
        r is Some ==> r->0@ == item.transaction_id@,
{
    if signature_parses(item.transaction_id.as_str()) {
        Some(item.transaction_id.clone())
    } else {
        None
    }
}

/// Records the outcome of one attempt on the item.
pub fn record_attempt(item: &WorkItem, outcome: AttemptOutcome, now: i64) -> (r: WorkItem)
    ensures
        r == after_attempt(*item, outcome, now),
{
    let mut r = item.duplicate();
    if item.status == ProcessStatus::Processed {
        return r;
    }
    if outcome == AttemptOutcome::Fetched {
        r.status = ProcessStatus::Processed;
        r.processed_at = Some(now);
    } else {
        r.status = ProcessStatus::Failed;
        if r.retries < u64::MAX {
            r.retries = r.retries + 1;
        }
    }
    r
}

/// One processing attempt: `answer` is how the detail source answered the
/// request that `detail_request` gave. Where the stored identifier is not a
/// signature no request exists, and the attempt fails as such whatever
/// `answer` says.
pub fn process_one(item: &WorkItem, answer: AttemptOutcome, now: i64) -> (r: WorkItem)
    ensures
        r == after_attempt(
            *item,
            if parses_as_signature(item.transaction_id@) {
                answer
            } else {
                AttemptOutcome::InvalidSignature
            },
            now,
        ),
{
    match detail_request(item) {
        None => record_attempt(item, AttemptOutcome::InvalidSignature, now),
        Some(_) => record_attempt(item, answer, now),
    }
}

/// The processing law: a success makes an unresolved item processed with
/// `processed_at` set and its retries kept; a failure makes it failed with
/// one more retry and `processed_at` kept; a processed item never changes.
pub proof fn lemma_attempt_transitions(item: WorkItem, outcome: AttemptOutcome, now: i64)
    ensures
        item.status == ProcessStatus::Processed ==> after_attempt(item, outcome, now) == item,
        item.status != ProcessStatus::Processed && outcome == AttemptOutcome::Fetched ==> {
            let r = after_attempt(item, outcome, now);
            &&& r.status == ProcessStatus::Processed
            &&& r.processed_at == Some(now)
            &&& r.retries == item.retries
        },
        item.status != ProcessStatus::Processed && outcome != AttemptOutcome::Fetched
            && item.retries < u64::MAX ==> {
            let r = after_attempt(item, outcome, now);
            &&& r.status == ProcessStatus::Failed
            &&& r.processed_at == item.processed_at
            &&& r.retries == item.retries + 1
        },
        after_attempt(item, outcome, now).retries >= item.retries,
        after_attempt(item, outcome, now).transaction_id == item.transaction_id,
        after_attempt(item, outcome, now).block_time == item.block_time,
{
}

} // verus!
