use vstd::prelude::*;
use crate::types::{ids_of, texts, unique_ids, ProcessStatus, WorkItem};

verus! {

/// What a store holds after inserting `batch` into `items`: each item whose
/// identifier is not yet held is appended, in batch order; an item whose
/// identifier is already held is skipped, as a unique key would refuse it.
pub open spec fn absorb(items: Seq<WorkItem>, batch: Seq<WorkItem>) -> Seq<WorkItem>
    decreases batch.len(),
{
    if batch.len() == 0 {
        items
    } else {
        let prev = absorb(items, batch.drop_last());
        if ids_of(prev).contains(batch.last().transaction_id@) {
            prev
        } else {
            prev.push(batch.last())
        }
    }
}

/// Inserting keeps what was stored as a prefix and keeps one item per
/// identifier.
pub proof fn lemma_absorb_keeps_unique(items: Seq<WorkItem>, batch: Seq<WorkItem>)
    requires
        unique_ids(items),
    ensures
        unique_ids(absorb(items, batch)),
        absorb(items, batch).len() >= items.len(),
        absorb(items, batch).take(items.len() as int) == items,
        forall|k: int|
            items.len() <= k < absorb(items, batch).len() ==> batch.contains(
                #[trigger] absorb(items, batch)[k],
            ),
    decreases batch.len(),
{
    if batch.len() > 0 {
        let rest = batch.drop_last();
        lemma_absorb_keeps_unique(items, rest);
        let prev = absorb(items, rest);
        let x = batch.last();
        assert forall|k: int| items.len() <= k < prev.len() implies batch.contains(#[trigger] prev[k]) by {
            let j = choose|j: int| 0 <= j < rest.len() && rest[j] == prev[k];
            assert(batch[j] == prev[k]);
        }
        assert(batch[batch.len() - 1] == x);
        if !ids_of(prev).contains(x.transaction_id@) {
            let next = prev.push(x);
            assert forall|a: int, b: int|
                0 <= a < next.len() && 0 <= b < next.len() && a != b implies #[trigger] next[a].transaction_id@
                != #[trigger] next[b].transaction_id@ by {
                if a == prev.len() {
                    assert(ids_of(prev)[b] == prev[b].transaction_id@);
                } else if b == prev.len() {
                    assert(ids_of(prev)[a] == prev[a].transaction_id@);
                } else {
                    assert(prev[a].transaction_id@ != prev[b].transaction_id@);
                }
            }
            assert(next.take(items.len() as int) =~= prev.take(items.len() as int));
        }
    } else {
        assert(items.take(items.len() as int) =~= items);
    }
}

/// The identifiers held after inserting are those held before and those of
/// the batch.
pub proof fn lemma_absorb_ids(items: Seq<WorkItem>, batch: Seq<WorkItem>)
    ensures
        ids_of(absorb(items, batch)).to_set() == ids_of(items).to_set().union(
            ids_of(batch).to_set(),
        ),
    decreases batch.len(),
{
    if batch.len() > 0 {
        let rest = batch.drop_last();
        lemma_absorb_ids(items, rest);
        let prev = absorb(items, rest);
        let x = batch.last().transaction_id@;
        assert(ids_of(batch) =~= ids_of(rest).push(x));
        assert forall|s: Seq<char>| #[trigger] ids_of(batch).contains(s) <==> (ids_of(rest).contains(s)
            || s == x) by {
            if ids_of(rest).contains(s) {
                let j = choose|j: int| 0 <= j < ids_of(rest).len() && ids_of(rest)[j] == s;
                assert(ids_of(batch)[j] == s);
            }
            if s == x {
                assert(ids_of(batch)[batch.len() - 1] == s);
            }
        }
        if !ids_of(prev).contains(x) {
            let next = prev.push(batch.last());
            assert(ids_of(next) =~= ids_of(prev).push(x));
            assert forall|s: Seq<char>| #[trigger] ids_of(next).contains(s) <==> (ids_of(prev).contains(s)
                || s == x) by {
                if ids_of(prev).contains(s) {
                    let j = choose|j: int| 0 <= j < ids_of(prev).len() && ids_of(prev)[j] == s;
                    assert(ids_of(next)[j] == s);
                }
                if s == x {
                    assert(ids_of(next)[prev.len() as int] == s);
                }
            }
        }
        assert forall|s: Seq<char>| #[trigger] ids_of(absorb(items, batch)).contains(s) <==> (ids_of(
            items,
        ).contains(s) || ids_of(batch).contains(s)) by {
            assert(ids_of(prev).to_set().contains(s) == (ids_of(items).to_set().contains(s)
                || ids_of(rest).to_set().contains(s)));
        }
        assert(ids_of(absorb(items, batch)).to_set() =~= ids_of(items).to_set().union(
            ids_of(batch).to_set(),
        ));
    } else {
        assert(ids_of(batch).to_set() =~= Set::<Seq<char>>::empty());
        assert(ids_of(items).to_set().union(ids_of(batch).to_set()) =~= ids_of(items).to_set());
    }
}

/// Inserting two batches one after the other is inserting their
/// concatenation.
pub proof fn lemma_absorb_concat(items: Seq<WorkItem>, x: Seq<WorkItem>, y: Seq<WorkItem>)
    ensures
        absorb(absorb(items, x), y) == absorb(items, x + y),
    decreases y.len(),
{
    if y.len() == 0 {
        assert(x + y =~= x);
    } else {
        lemma_absorb_concat(items, x, y.drop_last());
        assert((x + y).drop_last() =~= x + y.drop_last());
        assert((x + y).last() == y.last());
    }
}

/// Two ingestion runs racing on overlapping signatures: in whichever order
/// their batches land, the store ends with one item per identifier, holding
/// exactly the identifiers of both, and neither run meets an error.
pub proof fn lemma_overlapping_inserts(items: Seq<WorkItem>, first: Seq<WorkItem>, second: Seq<WorkItem>)
    requires
        unique_ids(items),
    ensures
        unique_ids(absorb(absorb(items, first), second)),
        ids_of(absorb(absorb(items, first), second)).to_set() == ids_of(items).to_set().union(
            ids_of(first).to_set(),
        ).union(ids_of(second).to_set()),
{
    lemma_absorb_keeps_unique(items, first);
    lemma_absorb_keeps_unique(absorb(items, first), second);
    lemma_absorb_ids(items, first);
    lemma_absorb_ids(absorb(items, first), second);
}

/// A status that the processing pass picks up.
pub open spec fn is_unresolved(s: ProcessStatus) -> bool {
    s == ProcessStatus::Pending || s == ProcessStatus::Failed
}

/// The items whose status is pending or failed, in store order.
pub open spec fn unresolved(items: Seq<WorkItem>) -> Seq<WorkItem>
    decreases items.len(),
{
    if items.len() == 0 {
        Seq::<WorkItem>::empty()
    } else {
        let prev = unresolved(items.drop_last());
        if is_unresolved(items.last().status) {
            prev.push(items.last())
        } else {
            prev
        }
    }
}

/// A work-item store held in memory, keyed by transaction identifier.
pub struct MemoryStore {
    items: Vec<WorkItem>,
}

impl MemoryStore {
    /// The stored items, in insertion order.
    pub closed spec fn items_spec(&self) -> Seq<WorkItem> {
        self.items@
    }

    /// Exactly one item per identifier.
    pub open spec fn wf(&self) -> bool {
        unique_ids(self.items_spec())
    }

    pub fn new() -> (r: MemoryStore)
        ensures
            r.wf(),
            r.items_spec() == Seq::<WorkItem>::empty(),
    {
        MemoryStore { items: Vec::new() }
    }

    pub fn len(&self) -> (r: usize)
        ensures
            r == self.items_spec().len(),
    {
        self.items.len()
    }

    /// The stored items, in insertion order.
    pub fn items(&self) -> (r: &Vec<WorkItem>)
        ensures
            r@ == self.items_spec(),
    {
        &self.items
    }

    /// The item with identifier `id`, if one is stored.
    pub fn get(&self, id: &String) -> (r: Option<&WorkItem>)
        requires
            self.wf(),
        ensures
            r is None <==> !ids_of(self.items_spec()).contains(id@),
            r is Some ==> self.items_spec().contains(*r->0) && r->0.transaction_id@ == id@,
    {
        let mut i: usize = 0;
        while i < self.items.len()
            invariant
                i <= self.items@.len(),
                forall|j: int| 0 <= j < i ==> self.items@[j].transaction_id@ != id@,
            decreases self.items@.len() - i,
        {
            if self.items[i].transaction_id == *id {
                assert(ids_of(self.items@)[i as int] == id@);
                return Some(&self.items[i]);
            }
            i = i + 1;
        }
        proof {
            if ids_of(self.items@).contains(id@) {
                let k = choose|k: int| 0 <= k < ids_of(self.items@).len() && ids_of(self.items@)[k] == id@;
                assert(self.items@[k].transaction_id@ == id@);
            }
        }
        None
    }

    /// Whether an item with identifier `id` is stored.
    pub fn contains_id(&self, id: &String) -> (r: bool)
        requires
            self.wf(),
        ensures
            r == ids_of(self.items_spec()).contains(id@),
    {
        self.get(id).is_some()
    }

    /// The identifiers of every stored item, in store order.
    pub fn existing_ids(&self) -> (r: Vec<String>)
        ensures
            texts(r@) == ids_of(self.items_spec()),
    {
        let mut out: Vec<String> = Vec::new();
        let mut i: usize = 0;
        while i < self.items.len()
            invariant
                i <= self.items@.len(),
                out@.len() == i,
                forall|j: int| 0 <= j < i ==> #[trigger] out@[j]@ == self.items@[j].transaction_id@,
            decreases self.items@.len() - i,
        {
            out.push(self.items[i].transaction_id.clone());
            i = i + 1;
        }
        assert(texts(out@) =~= ids_of(self.items@));
        out
    }

    /// Inserts a batch; an item whose identifier is already stored is a
    /// key conflict, which is skipped rather than reported. Returns how many
    /// items were added.
    pub fn insert_batch(&mut self, batch: &Vec<WorkItem>) -> (added: usize)
        requires
            old(self).wf(),
        ensures
            final(self).wf(),
            final(self).items_spec() == absorb(old(self).items_spec(), batch@),
            added == final(self).items_spec().len() - old(self).items_spec().len(),
    {
        let ghost start = self.items@;
        let before = self.items.len();
        let mut i: usize = 0;
        while i < batch.len()
            invariant
                i <= batch@.len(),
                unique_ids(self.items@),
                self.items@ == absorb(start, batch@.take(i as int)),
                before == start.len(),
                self.items@.len() >= start.len(),
            decreases batch@.len() - i,
        {
            assert(batch@.take(i + 1).drop_last() == batch@.take(i as int));
            assert(batch@.take(i + 1).last() == batch@[i as int]);
            if !self.contains_id(&batch[i].transaction_id) {
                let item = batch[i].duplicate();
                proof {
                    assert forall|k: int| 0 <= k < self.items@.len() implies
                        #[trigger] self.items@[k].transaction_id@ != item.transaction_id@ by {
                        assert(ids_of(self.items@)[k] == self.items@[k].transaction_id@);
                    }
                }
                self.items.push(item);
            }
            i = i + 1;
        }
        assert(batch@.take(i as int) == batch@);
        self.items.len() - before
    }

    /// Replaces the stored item that has `item`'s identifier. Returns whether
    /// one was stored; where none is, the store is left as it was.
    pub fn update(&mut self, item: WorkItem) -> (found: bool)
        requires
            old(self).wf(),
        ensures
            final(self).wf(),
            found == ids_of(old(self).items_spec()).contains(item.transaction_id@),
            final(self).items_spec().len() == old(self).items_spec().len(),
            forall|k: int|
                0 <= k < old(self).items_spec().len() ==> #[trigger] final(self).items_spec()[k]
                    == if old(self).items_spec()[k].transaction_id@ == item.transaction_id@ {
                    item
                } else {
                    old(self).items_spec()[k]
                },
    {
        let mut i: usize = 0;
        while i < self.items.len()
            invariant
                i <= self.items@.len(),
                self.items@ == old(self).items@,
                unique_ids(self.items@),
                forall|j: int| 0 <= j < i ==> self.items@[j].transaction_id@ != item.transaction_id@,
            decreases self.items@.len() - i,
        {
            if self.items[i].transaction_id == item.transaction_id {
                assert(ids_of(self.items@)[i as int] == item.transaction_id@);
                self.items.set(i, item);
                proof {
                    assert forall|a: int, b: int|
                        0 <= a < self.items@.len() && 0 <= b < self.items@.len() && a != b
                        implies #[trigger] self.items@[a].transaction_id@
                        != #[trigger] self.items@[b].transaction_id@ by {
                        assert(old(self).items@[a].transaction_id@ != old(self).items@[b].transaction_id@);
                    }
                }
                return true;
            }
            i = i + 1;
        }
        proof {
            if ids_of(self.items@).contains(item.transaction_id@) {
                let k = choose|k: int| 0 <= k < ids_of(self.items@).len() && ids_of(self.items@)[k] == item.transaction_id@;
                assert(self.items@[k].transaction_id@ == item.transaction_id@);
            }
        }
        false
    }

    /// Every item whose status is pending or failed, in store order.
    pub fn find_unresolved(&self) -> (r: Vec<WorkItem>)
        ensures
            r@ == unresolved(self.items_spec()),
    {
        let mut out: Vec<WorkItem> = Vec::new();
        let mut i: usize = 0;
        while i < self.items.len()
            invariant
                i <= self.items@.len(),
                out@ == unresolved(self.items@.take(i as int)),
            decreases self.items@.len() - i,
        {
            assert(self.items@.take(i + 1).drop_last() == self.items@.take(i as int));
            let st = self.items[i].status;
            if st == ProcessStatus::Pending || st == ProcessStatus::Failed {
                out.push(self.items[i].duplicate());
            }
            i = i + 1;
        }
        assert(self.items@.take(i as int) == self.items@);
        out
    }
}

} // verus!
