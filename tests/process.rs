use starship::ingest::{ingest, IngestConfig};
use starship::process::{detail_request, process_one, record_attempt, AttemptOutcome};
use starship::store::MemoryStore;
use starship::types::{ProcessStatus, SignatureRecord, WorkItem};

const S1: &str = "Lo7xJVSRvX5f7Q5ersF4FaBJ41e3NjmgTs3fFkKpQ2xNgVqU5xML31RhPyM7SMNAQ3fZq269KeBdikfwsNNvf8j";
const S2: &str = "gayYrhqFzfdbrRJHq2EZDFHcYarDmAbQDeA9MuNNuiBxho9ZPVh5SKitzpKmB4RG9AYV1QuDoWSXnfjiZNbCeb2";
const S3: &str = "22Nq9QvE64pBYbSWvoBE4AvPw3A4Q9bR7yRGdU4QwRPRYj6Teh32pqe26bfJQumUMtHRQBoiJHNhRraoVFNoUe3K";

fn item(id: &str, status: ProcessStatus, retries: u64) -> WorkItem {
    WorkItem {
        transaction_id: id.to_string(),
        program_id: "P".to_string(),
        transaction_type: "Unknown".to_string(),
        pipeline_version: "1".to_string(),
        external_version: "0.1.0".to_string(),
        status,
        retries,
        processed_at: None,
        block_time: Some(7),
    }
}

#[test]
fn pending_success_becomes_processed() {
    let r = record_attempt(&item(S1, ProcessStatus::Pending, 0), AttemptOutcome::Fetched, 500);
    assert_eq!(r.status, ProcessStatus::Processed);
    assert_eq!(r.processed_at, Some(500));
    assert_eq!(r.retries, 0);
    assert_eq!(r.block_time, Some(7));
}

#[test]
fn pending_failure_becomes_failed() {
    for o in [
        AttemptOutcome::NotFound,
        AttemptOutcome::Timeout,
        AttemptOutcome::DecodeError,
        AttemptOutcome::Transport,
        AttemptOutcome::InvalidSignature,
    ] {
        let r = record_attempt(&item(S1, ProcessStatus::Pending, 0), o, 500);
        assert_eq!(r.status, ProcessStatus::Failed);
        assert_eq!(r.retries, 1);
        assert_eq!(r.processed_at, None);
    }
}

#[test]
fn failed_success_keeps_retries() {
    let r = record_attempt(&item(S1, ProcessStatus::Failed, 4), AttemptOutcome::Fetched, 9);
    assert_eq!(r.status, ProcessStatus::Processed);
    assert_eq!(r.retries, 4);
    assert_eq!(r.processed_at, Some(9));
}

#[test]
fn processed_is_terminal() {
    let mut done = item(S1, ProcessStatus::Processed, 2);
    done.processed_at = Some(3);
    let r = record_attempt(&done, AttemptOutcome::Timeout, 9);
    assert_eq!(r, done);
}

#[test]
fn retries_hold_at_largest_count() {
    let r = record_attempt(&item(S1, ProcessStatus::Failed, u64::MAX), AttemptOutcome::Timeout, 9);
    assert_eq!(r.retries, u64::MAX);
}

#[test]
fn detail_request_parses_signatures() {
    assert_eq!(detail_request(&item(S1, ProcessStatus::Pending, 0)), Some(S1.to_string()));
    assert_eq!(detail_request(&item("not-a-signature", ProcessStatus::Pending, 0)), None);
    assert_eq!(detail_request(&item("abc", ProcessStatus::Pending, 0)), None);
    assert_eq!(detail_request(&item("", ProcessStatus::Pending, 0)), None);
}

#[test]
fn unparsable_identifier_fails_without_fetch() {
    let r = process_one(&item("0OIl", ProcessStatus::Pending, 0), AttemptOutcome::Fetched, 5);
    assert_eq!(r.status, ProcessStatus::Failed);
    assert_eq!(r.retries, 1);
    let ok = process_one(&item(S2, ProcessStatus::Pending, 0), AttemptOutcome::Fetched, 5);
    assert_eq!(ok.status, ProcessStatus::Processed);
}

/// One processing pass over the store, with a detail source that answers by
/// signature.
fn pass(store: &mut MemoryStore, answer: impl Fn(&str) -> AttemptOutcome, now: i64) -> usize {
    let mut n = 0;
    for w in store.find_unresolved() {
        let outcome = match detail_request(&w) {
            Some(sig) => answer(&sig),
            None => AttemptOutcome::InvalidSignature,
        };
        assert!(store.update(process_one(&w, outcome, now)));
        n += 1;
    }
    n
}

fn get(store: &MemoryStore, id: &str) -> WorkItem {
    store.get(&id.to_string()).unwrap().clone()
}

#[test]
fn harvest_ingest_process_scenario() {
    let harvested = vec![
        SignatureRecord::new(S1.to_string(), Some(100)),
        SignatureRecord::new(S2.to_string(), Some(90)),
        SignatureRecord::new(S3.to_string(), Some(80)),
    ];
    let cfg = IngestConfig {
        program_id: "P".to_string(),
        pipeline_version: "1".to_string(),
        external_version: "0.1.0".to_string(),
    };
    let mut store = MemoryStore::new();
    assert_eq!(ingest(&mut store, &harvested, &cfg), 3);
    assert!(store.items().iter().all(|w| w.status == ProcessStatus::Pending));
    assert_eq!(get(&store, S2).block_time, Some(90));

    let fail_s2 = |s: &str| if s == S2 { AttemptOutcome::NotFound } else { AttemptOutcome::Fetched };
    assert_eq!(pass(&mut store, fail_s2, 1000), 3);
    assert_eq!(get(&store, S1).status, ProcessStatus::Processed);
    assert_eq!(get(&store, S3).status, ProcessStatus::Processed);
    let s2 = get(&store, S2);
    assert_eq!(s2.status, ProcessStatus::Failed);
    assert_eq!(s2.retries, 1);
    assert_eq!(s2.processed_at, None);

    assert_eq!(pass(&mut store, |_| AttemptOutcome::Fetched, 2000), 1);
    let s2 = get(&store, S2);
    assert_eq!(s2.status, ProcessStatus::Processed);
    assert_eq!(s2.retries, 1);
    assert_eq!(s2.processed_at, Some(2000));
    assert_eq!(get(&store, S1).processed_at, Some(1000));
    assert!(store.find_unresolved().is_empty());
}
