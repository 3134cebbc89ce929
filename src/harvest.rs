use vstd::prelude::*;
use crate::types::SignatureRecord;

verus! {

/// How many signatures one request asks the signature source for.
pub const PAGE_LIMIT: usize = 1000;

/// One request to the signature source: the page that precedes `before`
/// (the newest page when absent), at most `limit` records.
#[derive(Clone, Debug, PartialEq, Eq)]
pub struct PageRequest {
    pub before: Option<String>,
    pub limit: usize,
}

/// Pagination through all signatures of one address, newest first.
///
/// The caller asks for the next request, performs it, and hands the page
/// back; the harvester decides the cursor and when the source is exhausted.
pub struct Harvester {
    records: Vec<SignatureRecord>,
    cursor: Option<String>,
    calls: usize,
    done: bool,
}

impl Harvester {
    /// Every record received so far, in the order received.
    pub closed spec fn records_spec(&self) -> Seq<SignatureRecord> {
        self.records@
    }

    /// The `before` cursor of the next request.
    pub closed spec fn cursor_spec(&self) -> Option<String> {
        self.cursor
    }

    /// How many pages have been received.
    pub closed spec fn calls_spec(&self) -> nat {
        self.calls as nat
    }

    /// Whether the source is exhausted.
    pub closed spec fn done_spec(&self) -> bool {
        self.done
    }

    /// Until the end, every page received was a full one.
    pub closed spec fn wf(&self) -> bool {
        !self.done ==> self.records@.len() >= self.calls * PAGE_LIMIT
    }

    /// Starts a harvest, from the newest signature or from before `start_cursor`.
    pub fn new(start_cursor: Option<String>) -> (r: Harvester)
        ensures
            r.wf(),
            r.records_spec() == Seq::<SignatureRecord>::empty(),
            r.cursor_spec() == start_cursor,
            r.calls_spec() == 0,
            !r.done_spec(),
    {
        Harvester { records: Vec::new(), cursor: start_cursor, calls: 0, done: false }
    }

    /// The request to make next, or `None` once the source is exhausted.
    pub fn next_request(&self) -> (r: Option<PageRequest>)
        ensures
            r is None <==> self.done_spec(),
            r is Some ==> r->0.before == self.cursor_spec() && r->0.limit == PAGE_LIMIT,
    {
        if self.done {
            None
        } else {
            let before = match &self.cursor {
                Some(s) => Some(s.clone()),
                None => None,
            };
            Some(PageRequest { before, limit: PAGE_LIMIT })
        }
    }

    /// Takes the page that the source returned for the last request.
    ///
    /// The next cursor is the signature of the page's last (oldest) record; a
    /// page shorter than the limit, an empty one included, ends the harvest.
    pub fn receive_page(&mut self, page: Vec<SignatureRecord>)
        requires
            old(self).wf(),
            !old(self).done_spec(),
        ensures
            final(self).wf(),
            final(self).records_spec() == old(self).records_spec() + page@,
            final(self).calls_spec() == old(self).calls_spec() + 1,
            final(self).done_spec() == (page@.len() < PAGE_LIMIT),
            page@.len() == 0 ==> final(self).cursor_spec() == old(self).cursor_spec(),
            page@.len() > 0 ==> final(self).cursor_spec() == Some(page@.last().signature),
    {
        let received = self.records.len();
        assert(self.calls < usize::MAX) by {
            assert(received >= self.calls * PAGE_LIMIT);
        }
        let n = page.len();
        if n > 0 {
            self.cursor = Some(page[n - 1].signature.clone());
        }
        let mut page = page;
        self.records.append(&mut page);
        self.calls = self.calls + 1;
        self.done = n < PAGE_LIMIT;
        assert(!self.done ==> self.records@.len() >= self.calls * PAGE_LIMIT) by {
            if !self.done {
                assert(self.records@.len() == received + n);
                assert((self.calls - 1) * 1000 + 1000 == self.calls * 1000) by (nonlinear_arith);
            }
        }
    }

    pub fn is_done(&self) -> (r: bool)
        ensures
            r == self.done_spec(),
    {
        self.done
    }

    /// How many pages have been received.
    pub fn calls(&self) -> (r: usize)
        ensures
            r == self.calls_spec(),
    {
        self.calls
    }

    /// The records received so far, newest first.
    pub fn records(&self) -> (r: &Vec<SignatureRecord>)
        ensures
            r@ == self.records_spec(),
    {
        &self.records
    }

    /// Ends the harvest and hands over its records.
    pub fn into_records(self) -> (r: Vec<SignatureRecord>)
        ensures
            r@ == self.records_spec(),
    {
        self.records
    }
}

} // verus!
