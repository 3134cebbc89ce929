use vstd::prelude::*;
use crate::store::{absorb, lemma_absorb_concat, lemma_absorb_ids, lemma_absorb_keeps_unique, MemoryStore};
use crate::types::{ids_of, signatures_of, texts, ProcessStatus, SignatureRecord, WorkItem};

verus! {

/// How many work items one insert carries at most.
pub const BATCH_SIZE: usize = 1000;

/// The classification every new work item starts with.
pub const UNKNOWN_TYPE: &'static str = "Unknown";

/// What a new work item records beside its signature.
#[derive(Clone, Debug, PartialEq, Eq)]
pub struct IngestConfig {
    pub program_id: String,
    pub pipeline_version: String,
    pub external_version: String,
}

/// The harvested records whose signature is not in `known`, in harvest order.
pub open spec fn new_records(h: Seq<SignatureRecord>, known: Set<Seq<char>>) -> Seq<SignatureRecord>
    decreases h.len(),
{
    if h.len() == 0 {
        Seq::<SignatureRecord>::empty()
    } else {
        let prev = new_records(h.drop_last(), known);
        if known.contains(h.last().signature@) {
            prev
        } else {
            prev.push(h.last())
        }
    }
}

/// `w` is the pending work item that ingestion makes of `rec`.
pub open spec fn is_fresh_item(w: WorkItem, rec: SignatureRecord, cfg: IngestConfig) -> bool {
    &&& w.transaction_id@ == rec.signature@
    &&& w.program_id@ == cfg.program_id@
    &&& w.transaction_type@ == UNKNOWN_TYPE@
    &&& w.pipeline_version@ == cfg.pipeline_version@
    &&& w.external_version@ == cfg.external_version@
    &&& w.status == ProcessStatus::Pending
    &&& w.retries == 0
    &&& w.processed_at is None
    &&& w.block_time == rec.block_time
}

/// Start and end (exclusive) of batch `i` of `n` items.
pub open spec fn batch_start(i: int) -> int {
    i * BATCH_SIZE
}

pub open spec fn batch_end(i: int, n: int) -> int {
    if (i + 1) * BATCH_SIZE < n {
        (i + 1) * BATCH_SIZE
    } else {
        n
    }
}

/// `batches` cuts `items` in order into full batches and, where items remain,
/// one last shorter batch; no batch is empty.
pub open spec fn is_batching<T>(items: Seq<T>, batches: Seq<Seq<T>>) -> bool {
    &&& batches.len() * BATCH_SIZE >= items.len()
    &&& (batches.len() == 0 || (batches.len() - 1) * BATCH_SIZE < items.len())
    &&& forall|i: int|
        0 <= i < batches.len() ==> #[trigger] batches[i] == items.subrange(
            batch_start(i),
            batch_end(i, items.len() as int),
        )
}

/// The items of a sequence of batches, in order.
pub open spec fn joined<T>(batches: Seq<Seq<T>>) -> Seq<T>
    decreases batches.len(),
{
    if batches.len() == 0 {
        Seq::<T>::empty()
    } else {
        joined(batches.drop_last()) + batches.last()
    }
}

/// The contents of a sequence of vectors.
pub open spec fn vec_views<T>(v: Seq<Vec<T>>) -> Seq<Seq<T>> {
    v.map_values(|b: Vec<T>| b@)
}

/// Whether `v` holds a string equal to `s`.
pub fn contains_text(v: &Vec<String>, s: &String) -> (r: bool)
    ensures
        r == texts(v@).contains(s@),
{
    let mut i: usize = 0;
    while i < v.len()
        invariant
            i <= v@.len(),
            forall|j: int| 0 <= j < i ==> v@[j]@ != s@,
        decreases v@.len() - i,
    {
        if v[i] == *s {
            assert(texts(v@)[i as int] == s@);
            return true;
        }
        i = i + 1;
    }
    proof {
        if texts(v@).contains(s@) {
            let k = choose|k: int| 0 <= k < texts(v@).len() && texts(v@)[k] == s@;
            assert(v@[k]@ == s@);
        }
    }
    false
}

/// The harvested records whose signature is not among the known identifiers.
pub fn select_new(harvested: &Vec<SignatureRecord>, existing: &Vec<String>) -> (r: Vec<
    SignatureRecord,
>)
    ensures
        r@ == new_records(harvested@, texts(existing@).to_set()),
{
    let ghost known = texts(existing@).to_set();
    let mut out: Vec<SignatureRecord> = Vec::new();
    let mut i: usize = 0;
    while i < harvested.len()
        invariant
            i <= harvested@.len(),
            known == texts(existing@).to_set(),
            out@ == new_records(harvested@.take(i as int), known),
        decreases harvested@.len() - i,
    {
        let rec = &harvested[i];
        let seen = contains_text(existing, &rec.signature);
        assert(harvested@.take(i + 1).drop_last() == harvested@.take(i as int));
        if !seen {
            out.push(rec.duplicate());
        }
        i = i + 1;
    }
    assert(harvested@.take(i as int) == harvested@);
    out
}

/// The pending work item for one harvested record.
pub fn new_work_item(rec: &SignatureRecord, cfg: &IngestConfig) -> (r: WorkItem)
    ensures
        is_fresh_item(r, *rec, *cfg),
{
    WorkItem {
        transaction_id: rec.signature.clone(),
        program_id: cfg.program_id.clone(),
        transaction_type: UNKNOWN_TYPE.to_owned(),
        pipeline_version: cfg.pipeline_version.clone(),
        external_version: cfg.external_version.clone(),
        status: ProcessStatus::Pending,
        retries: 0,
        processed_at: None,
        block_time: rec.block_time,
    }
}

/// The pending work items for the harvested records that are not yet known,
/// in harvest order.
pub fn plan_new_items(
    harvested: &Vec<SignatureRecord>,
    existing: &Vec<String>,
    cfg: &IngestConfig,
) -> (r: Vec<WorkItem>)
    ensures
        r@.len() == new_records(harvested@, texts(existing@).to_set()).len(),
        forall|i: int|
            0 <= i < r@.len() ==> is_fresh_item(
                #[trigger] r@[i],
                new_records(harvested@, texts(existing@).to_set())[i],
                *cfg,
            ),
{
    let fresh = select_new(harvested, existing);
    let mut out: Vec<WorkItem> = Vec::new();
    let mut i: usize = 0;
    while i < fresh.len()
        invariant
            i <= fresh@.len(),
            out@.len() == i,
            forall|j: int| 0 <= j < i ==> is_fresh_item(#[trigger] out@[j], fresh@[j], *cfg),
        decreases fresh@.len() - i,
    {
        out.push(new_work_item(&fresh[i], cfg));
        i = i + 1;
    }
    out
}

/// Cuts `items` in order into batches of `BATCH_SIZE`, the last one shorter
/// where the count is not a multiple of it.
pub fn split_batches<T>(items: Vec<T>) -> (r: Vec<Vec<T>>)
    ensures
        is_batching(items@, vec_views(r@)),
{
    let ghost all = items@;
    let n = items.len();
    let mut rest = items;
    let mut start: usize = 0;
    let mut batches: Vec<Vec<T>> = Vec::new();
    while rest.len() > BATCH_SIZE
        invariant
            n == all.len(),
            start == batches@.len() * BATCH_SIZE,
            start <= n,
            rest@ == all.subrange(start as int, n as int),
            forall|i: int|
                0 <= i < batches@.len() ==> #[trigger] batches@[i]@ == all.subrange(
                    batch_start(i),
                    batch_end(i, n as int),
                ),
        decreases rest@.len(),
    {
        let tail = rest.split_off(BATCH_SIZE);
        assert(rest@ == all.subrange(start as int, start + BATCH_SIZE));
        batches.push(rest);
        rest = tail;
        start = start + BATCH_SIZE;
    }
    if rest.len() > 0 {
        batches.push(rest);
    }
    assert(vec_views(batches@).len() == batches@.len());
    assert forall|i: int| 0 <= i < vec_views(batches@).len() implies #[trigger] vec_views(
        batches@,
    )[i] == all.subrange(batch_start(i), batch_end(i, n as int)) by {
        assert(vec_views(batches@)[i] == batches@[i]@);
    }
    batches
}

/// Committed batches form a prefix: after the first `k` batches of a batching
/// have been applied, exactly the first `min(k * BATCH_SIZE, n)` items are in.
pub proof fn lemma_committed_prefix<T>(items: Seq<T>, batches: Seq<Seq<T>>, k: int)
    requires
        is_batching(items, batches),
        0 <= k <= batches.len(),
    ensures
        joined(batches.take(k)) == items.take(
            if k * BATCH_SIZE < items.len() {
                k * BATCH_SIZE
            } else {
                items.len() as int
            },
        ),
    decreases k,
{
    if k > 0 {
        lemma_committed_prefix(items, batches, k - 1);
        assert(batches.take(k).drop_last() == batches.take(k - 1));
        assert(batches.take(k).last() == batches[k - 1]);
        assert((k - 1) * BATCH_SIZE < items.len()) by {
            assert((k - 1) * BATCH_SIZE <= (batches.len() - 1) * BATCH_SIZE);
        }
        let m = if k * BATCH_SIZE < items.len() {
            k * BATCH_SIZE
        } else {
            items.len() as int
        };
        assert(batch_end(k - 1, items.len() as int) == m);
        assert(items.take((k - 1) * BATCH_SIZE) + items.subrange((k - 1) * BATCH_SIZE, m)
            =~= items.take(m));
    } else {
        assert(batches.take(0) =~= Seq::<Seq<T>>::empty());
        assert(items.take(0) =~= Seq::<T>::empty());
    }
}

/// Ingesting again selects nothing: once every harvested signature is known,
/// no harvested record is new.
pub proof fn lemma_reingest_selects_nothing(h: Seq<SignatureRecord>, known: Set<Seq<char>>)
    requires
        forall|i: int| 0 <= i < h.len() ==> known.contains(#[trigger] h[i].signature@),
    ensures
        new_records(h, known) == Seq::<SignatureRecord>::empty(),
    decreases h.len(),
{
    if h.len() > 0 {
        assert(known.contains(h[h.len() - 1].signature@));
        assert forall|i: int| 0 <= i < h.drop_last().len() implies known.contains(
            #[trigger] h.drop_last()[i].signature@,
        ) by {
            assert(h.drop_last()[i] == h[i]);
        }
        lemma_reingest_selects_nothing(h.drop_last(), known);
    }
}


/// Each selected record is a harvested one with an unknown signature, and the
/// selected signatures with the known ones cover every harvested signature.
pub proof fn lemma_new_records(h: Seq<SignatureRecord>, known: Set<Seq<char>>)
    ensures
        forall|j: int|
            0 <= j < new_records(h, known).len() ==> h.contains(#[trigger] new_records(h, known)[j])
                && !known.contains(new_records(h, known)[j].signature@),
        forall|s: Seq<char>|
            (#[trigger] signatures_of(new_records(h, known)).contains(s) || known.contains(s)) <==> (
            signatures_of(h).contains(s) || known.contains(s)),
    decreases h.len(),
{
    if h.len() > 0 {
        let rest = h.drop_last();
        let x = h.last();
        lemma_new_records(rest, known);
        let prev = new_records(rest, known);
        assert(h[h.len() - 1] == x);
        assert forall|j: int| 0 <= j < prev.len() implies h.contains(#[trigger] prev[j]) by {
            let k = choose|k: int| 0 <= k < rest.len() && rest[k] == prev[j];
            assert(h[k] == prev[j]);
        }
        assert forall|s: Seq<char>| #[trigger] signatures_of(h).contains(s) <==> (signatures_of(
            rest,
        ).contains(s) || s == x.signature@) by {
            if signatures_of(rest).contains(s) {
                let k = choose|k: int| 0 <= k < signatures_of(rest).len() && signatures_of(rest)[k] == s;
                assert(signatures_of(h)[k] == s);
            }
            if s == x.signature@ {
                assert(signatures_of(h)[h.len() - 1] == s);
            }
            if signatures_of(h).contains(s) {
                let k = choose|k: int| 0 <= k < signatures_of(h).len() && signatures_of(h)[k] == s;
                if k < rest.len() {
                    assert(signatures_of(rest)[k] == s);
                }
            }
        }
        if !known.contains(x.signature@) {
            let next = prev.push(x);
            assert forall|s: Seq<char>| #[trigger] signatures_of(next).contains(s) <==> (
            signatures_of(prev).contains(s) || s == x.signature@) by {
                if signatures_of(prev).contains(s) {
                    let k = choose|k: int| 0 <= k < signatures_of(prev).len() && signatures_of(prev)[k] == s;
                    assert(signatures_of(next)[k] == s);
                }
                if s == x.signature@ {
                    assert(signatures_of(next)[prev.len() as int] == s);
                }
                if signatures_of(next).contains(s) {
                    let k = choose|k: int| 0 <= k < signatures_of(next).len() && signatures_of(next)[k] == s;
                    if k < prev.len() {
                        assert(signatures_of(prev)[k] == s);
                    }
                }
            }
        }
    }
}

/// Runs one ingestion against the store: the harvested records whose
/// signature is not yet stored become pending work items, inserted in
/// batches of `BATCH_SIZE` one after the other. Returns how many were added.
pub fn ingest(store: &mut MemoryStore, harvested: &Vec<SignatureRecord>, cfg: &IngestConfig) -> (added: usize)
    requires
        old(store).wf(),
    ensures
        final(store).wf(),
        added == final(store).items_spec().len() - old(store).items_spec().len(),
        final(store).items_spec().take(old(store).items_spec().len() as int) == old(
            store,
        ).items_spec(),
        forall|k: int|
            old(store).items_spec().len() <= k < final(store).items_spec().len() ==> exists|i: int|
                0 <= i < harvested@.len() && is_fresh_item(
                    #[trigger] final(store).items_spec()[k],
                    harvested@[i],
                    *cfg,
                ),
        ids_of(final(store).items_spec()).to_set() == ids_of(old(store).items_spec()).to_set().union(
            signatures_of(harvested@).to_set(),
        ),
        (forall|i: int|
            0 <= i < harvested@.len() ==> ids_of(old(store).items_spec()).contains(
                #[trigger] harvested@[i].signature@,
            )) ==> final(store).items_spec() == old(store).items_spec(),
{
    let ghost start = store.items_spec();
    let before = store.len();
    let existing = store.existing_ids();
    let ghost known = texts(existing@).to_set();
    let planned = plan_new_items(harvested, &existing, cfg);
    let ghost p = planned@;
    let ghost nr = new_records(harvested@, known);
    let batches = split_batches(planned);
    let ghost bs = vec_views(batches@);
    let mut i: usize = 0;
    while i < batches.len()
        invariant
            store.wf(),
            i <= batches@.len(),
            bs == vec_views(batches@),
            store.items_spec() == absorb(start, joined(bs.take(i as int))),
        decreases batches@.len() - i,
    {
        proof {
            assert(bs.take(i + 1).drop_last() == bs.take(i as int));
            assert(bs.take(i + 1).last() == batches@[i as int]@);
            lemma_absorb_concat(start, joined(bs.take(i as int)), batches@[i as int]@);
        }
        store.insert_batch(&batches[i]);
        i = i + 1;
    }
    let after = store.len();
    proof {
        lemma_committed_prefix(p, bs, bs.len() as int);
        assert(bs.take(bs.len() as int) == bs);
        assert(p.take(p.len() as int) == p);
        assert(store.items_spec() == absorb(start, p));
        lemma_absorb_keeps_unique(start, p);
        lemma_absorb_ids(start, p);
        lemma_new_records(harvested@, known);
        assert(known =~= ids_of(start).to_set());
        assert(ids_of(p) =~= signatures_of(nr));
        let fin = store.items_spec();
        assert forall|k: int| start.len() <= k < fin.len() implies exists|i: int|
            0 <= i < harvested@.len() && is_fresh_item(#[trigger] fin[k], harvested@[i], *cfg) by {
            let j = choose|j: int| 0 <= j < p.len() && p[j] == fin[k];
            let m = choose|m: int| 0 <= m < harvested@.len() && harvested@[m] == nr[j];
            assert(is_fresh_item(p[j], nr[j], *cfg));
        }
        assert(ids_of(fin).to_set() =~= ids_of(start).to_set().union(signatures_of(harvested@).to_set()));
        if forall|i: int| 0 <= i < harvested@.len() ==> ids_of(start).contains(#[trigger] harvested@[i].signature@) {
            assert forall|i: int| 0 <= i < harvested@.len() implies known.contains(#[trigger] harvested@[i].signature@) by {
                assert(ids_of(start).contains(harvested@[i].signature@));
            }
            lemma_reingest_selects_nothing(harvested@, known);
            assert(p.len() == 0);
            assert(p == Seq::<WorkItem>::empty());
        }
    }
    after - before
}


/// Ingesting the same harvest twice: once a run has left the store holding
/// its former identifiers and every harvested signature, a second run with
/// that harvest finds every signature known and selects nothing to insert.
pub proof fn lemma_ingest_twice(before: Seq<WorkItem>, after: Seq<WorkItem>, h: Seq<SignatureRecord>)
    requires
        ids_of(after).to_set() == ids_of(before).to_set().union(signatures_of(h).to_set()),
    ensures
        forall|i: int| 0 <= i < h.len() ==> ids_of(after).contains(#[trigger] h[i].signature@),
        new_records(h, ids_of(after).to_set()) == Seq::<SignatureRecord>::empty(),
{
    assert forall|i: int| 0 <= i < h.len() implies ids_of(after).contains(#[trigger] h[i].signature@) by {
        assert(signatures_of(h)[i] == h[i].signature@);
        assert(ids_of(after).to_set().contains(h[i].signature@));
    }
    lemma_reingest_selects_nothing(h, ids_of(after).to_set());
}

} // verus!
