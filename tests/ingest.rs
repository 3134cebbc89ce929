use starship::ingest::{
    ingest, new_work_item, plan_new_items, select_new, split_batches, IngestConfig, BATCH_SIZE,
    UNKNOWN_TYPE,
};
use starship::store::MemoryStore;
use starship::types::{ProcessStatus, SignatureRecord, WorkItem};

fn cfg() -> IngestConfig {
    IngestConfig {
        program_id: "P".to_string(),
        pipeline_version: "1.2.3".to_string(),
        external_version: "0.1.0".to_string(),
    }
}

fn records(prefix: &str, n: usize) -> Vec<SignatureRecord> {
    (0..n).map(|i| SignatureRecord::new(format!("{}{}", prefix, i), Some(i as i64))).collect()
}

#[test]
fn new_item_is_pending_and_unknown() {
    let rec = SignatureRecord::new("sig".to_string(), Some(42));
    let w = new_work_item(&rec, &cfg());
    assert_eq!(w.transaction_id, "sig");
    assert_eq!(w.program_id, "P");
    assert_eq!(w.transaction_type, UNKNOWN_TYPE);
    assert_eq!(w.transaction_type, "Unknown");
    assert_eq!(w.pipeline_version, "1.2.3");
    assert_eq!(w.external_version, "0.1.0");
    assert_eq!(w.status, ProcessStatus::Pending);
    assert_eq!(w.retries, 0);
    assert_eq!(w.processed_at, None);
    assert_eq!(w.block_time, Some(42));
}

#[test]
fn select_new_skips_known_signatures() {
    let h = records("s", 4);
    let known = vec!["s1".to_string(), "s3".to_string(), "other".to_string()];
    let fresh = select_new(&h, &known);
    let sigs: Vec<&str> = fresh.iter().map(|r| r.signature.as_str()).collect();
    assert_eq!(sigs, vec!["s0", "s2"]);
}

#[test]
fn plan_keeps_harvest_order() {
    let h = records("s", 3);
    let planned = plan_new_items(&h, &vec!["s0".to_string()], &cfg());
    assert_eq!(planned.len(), 2);
    assert_eq!(planned[0].transaction_id, "s1");
    assert_eq!(planned[1].block_time, Some(2));
}

#[test]
fn batches_of_2500_are_1000_1000_500() {
    let items: Vec<u32> = (0..2500).collect();
    let batches = split_batches(items);
    let sizes: Vec<usize> = batches.iter().map(|b| b.len()).collect();
    assert_eq!(sizes, vec![1000, 1000, 500]);
    assert_eq!(batches[1][0], 1000);
    assert_eq!(batches[2][499], 2499);
    assert_eq!(BATCH_SIZE, 1000);
}

#[test]
fn batch_edges() {
    assert!(split_batches(Vec::<u8>::new()).is_empty());
    let one = split_batches((0..1000).collect::<Vec<u32>>());
    assert_eq!(one.len(), 1);
    assert_eq!(one[0].len(), 1000);
    let two = split_batches((0..1001).collect::<Vec<u32>>());
    assert_eq!(two.iter().map(|b| b.len()).collect::<Vec<_>>(), vec![1000, 1]);
}

#[test]
fn failure_in_second_batch_leaves_first_batch() {
    let h = records("s", 2500);
    let planned = plan_new_items(&h, &Vec::new(), &cfg());
    let batches = split_batches(planned);
    let mut store = MemoryStore::new();
    // The first batch commits; the run stops when the second one fails.
    store.insert_batch(&batches[0]);
    assert_eq!(store.len(), 1000);
    assert_eq!(store.items()[999].transaction_id, "s999");
    assert!(!store.contains_id(&"s1000".to_string()));
}

#[test]
fn ingest_twice_inserts_once() {
    let h = records("s", 2500);
    let mut store = MemoryStore::new();
    assert_eq!(ingest(&mut store, &h, &cfg()), 2500);
    assert_eq!(ingest(&mut store, &h, &cfg()), 0);
    assert_eq!(store.len(), 2500);
}

#[test]
fn ingest_adds_only_unknown() {
    let mut store = MemoryStore::new();
    assert_eq!(ingest(&mut store, &records("s", 3), &cfg()), 3);
    assert_eq!(ingest(&mut store, &records("s", 5), &cfg()), 2);
    let ids: Vec<&str> = store.items().iter().map(|w| w.transaction_id.as_str()).collect();
    assert_eq!(ids, vec!["s0", "s1", "s2", "s3", "s4"]);
}

#[test]
fn racing_runs_store_one_item_per_signature() {
    let mut store = MemoryStore::new();
    // Both runs read the same snapshot before either inserts.
    let snapshot = store.existing_ids();
    let first: Vec<WorkItem> = plan_new_items(&records("s", 4), &snapshot, &cfg());
    let second: Vec<WorkItem> = plan_new_items(&records("s", 6), &snapshot, &cfg());
    assert_eq!(store.insert_batch(&first), 4);
    assert_eq!(store.insert_batch(&second), 2);
    assert_eq!(store.len(), 6);
    for i in 0..6 {
        let id = format!("s{}", i);
        let n = store.items().iter().filter(|w| w.transaction_id == id).count();
        assert_eq!(n, 1);
    }
}
