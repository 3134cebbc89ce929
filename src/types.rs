use vstd::prelude::*;

verus! {

/// One signature as the signature source reports it.
#[derive(Clone, Debug, PartialEq, Eq)]
pub struct SignatureRecord {
    pub signature: String,
    /// Unix seconds, where the source knows them.
    pub block_time: Option<i64>,
}

/// Where a work item stands in its processing.
#[derive(Clone, Copy, Debug, PartialEq, Eq, Structural)]
pub enum ProcessStatus {
    Pending,
    Processing,
    Processed,
    Failed,
}

/// The persisted record of one transaction signature.
#[derive(Clone, Debug, PartialEq, Eq)]
pub struct WorkItem {
    pub transaction_id: String,
    pub program_id: String,
    pub transaction_type: String,
    pub pipeline_version: String,
    pub external_version: String,
    pub status: ProcessStatus,
    pub retries: u64,
    pub processed_at: Option<i64>,
    pub block_time: Option<i64>,
}

/// The texts of a sequence of strings.
pub open spec fn texts(v: Seq<String>) -> Seq<Seq<char>> {
    v.map_values(|s: String| s@)
}

/// The identifiers of a sequence of work items, in order.
pub open spec fn ids_of(items: Seq<WorkItem>) -> Seq<Seq<char>> {
    items.map_values(|w: WorkItem| w.transaction_id@)
}

/// The signatures of a sequence of records, in order.
pub open spec fn signatures_of(records: Seq<SignatureRecord>) -> Seq<Seq<char>> {
    records.map_values(|r: SignatureRecord| r.signature@)
}

/// No two work items share an identifier.
pub open spec fn unique_ids(items: Seq<WorkItem>) -> bool {
    forall|i: int, j: int|
        0 <= i < items.len() && 0 <= j < items.len() && i != j
            ==> #[trigger] items[i].transaction_id@ != #[trigger] items[j].transaction_id@
}

impl SignatureRecord {
    pub fn new(signature: String, block_time: Option<i64>) -> (r: SignatureRecord)
        ensures
            r.signature == signature,
            r.block_time == block_time,
    {
        SignatureRecord { signature, block_time }
    }

    /// An equal copy of the record.
    pub fn duplicate(&self) -> (r: SignatureRecord)
        ensures
            r == *self,
    {
        SignatureRecord { signature: self.signature.clone(), block_time: self.block_time }
    }
}

impl WorkItem {
    /// An equal copy of the item.
    pub fn duplicate(&self) -> (r: WorkItem)
        ensures
            r == *self,
    {
        WorkItem {
            transaction_id: self.transaction_id.clone(),
            program_id: self.program_id.clone(),
            transaction_type: self.transaction_type.clone(),
            pipeline_version: self.pipeline_version.clone(),
            external_version: self.external_version.clone(),
            status: self.status,
            retries: self.retries,
            processed_at: self.processed_at,
            block_time: self.block_time,
        }
    }
}

} // verus!
