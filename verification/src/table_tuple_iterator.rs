use vstd::prelude::*;
use crate::error::Error;
use crate::page_layout::TablePageView;
use crate::record_id::{lemma_pack_is_sum, pack, record_id_text, RecordId};
use crate::table_page::{TablePage, TupleMetadata};
use crate::tuple::Tuple;
use crate::typedef::{PageId, INVALID_PAGE_ID};

verus! {

/// The first slot at or behind `from` whose tuple is not deleted; the number
/// of tuples where there is none.
pub open spec fn next_live(tuples: Seq<(TupleMetadata, Seq<u8>)>, from: int) -> int
    decreases tuples.len() - from,
{
    if from < 0 || from >= tuples.len() {
        tuples.len() as int
    } else if !tuples[from].0.is_deleted {
        from
    } else {
        next_live(tuples, from + 1)
    }
}

/// The tuples of a page that are not deleted, from slot `from` on and in slot
/// order, each with its packed record id.
pub open spec fn live_items_from(page: TablePageView, from: int) -> Seq<(u64, Seq<u8>)>
    decreases page.tuples.len() - from,
{
    if from < 0 || from >= page.tuples.len() {
        Seq::empty()
    } else if page.tuples[from].0.is_deleted {
        live_items_from(page, from + 1)
    } else {
        seq![(pack(page.page_id, from as u32), page.tuples[from].1)] + live_items_from(
            page,
            from + 1,
        )
    }
}

/// The tuples of a page that are not deleted, in slot order.
pub open spec fn live_items(page: TablePageView) -> Seq<(u64, Seq<u8>)> {
    live_items_from(page, 0)
}

/// Where a scan stands: on a page, before one of its slots.
pub struct CursorView {
    pub page_id: PageId,
    pub slot: nat,
}

impl CursorView {
    /// The scan has left the last page of the chain.
    pub open spec fn at_end(self) -> bool {
        self.page_id == INVALID_PAGE_ID
    }

    /// One step of the scan on the page it stands on: the next tuple that is
    /// not deleted, with the cursor behind it; or, where the page has none
    /// left, nothing, with the cursor before the first slot of the next page.
    pub open spec fn step(self, page: TablePageView) -> (CursorView, Option<(u64, Seq<u8>)>) {
        let found = next_live(page.tuples, self.slot as int);
        if found < page.tuples.len() {
            (
                CursorView { page_id: self.page_id, slot: (found + 1) as nat },
                Some((pack(self.page_id, found as u32), page.tuples[found].1)),
            )
        } else {
            (CursorView { page_id: page.next_page_id, slot: 0 }, None)
        }
    }
}

/// The first live slot at or behind `from` is not before `from`, and not
/// behind the last slot by more than one.
pub proof fn lemma_next_live_bounds(tuples: Seq<(TupleMetadata, Seq<u8>)>, from: int)
    requires
        0 <= from,
    ensures
        next_live(tuples, from) <= tuples.len(),
        from < tuples.len() ==> from <= next_live(tuples, from),
        next_live(tuples, from) < tuples.len() ==> !tuples[next_live(tuples, from)].0.is_deleted,
    decreases tuples.len() - from,
{
    if from < tuples.len() && tuples[from].0.is_deleted {
        lemma_next_live_bounds(tuples, from + 1);
    }
}

/// Slots with deleted tuples do not count: the first live slot behind a run
/// of them is the first live slot from the start of the run.
pub proof fn lemma_next_live_skips(tuples: Seq<(TupleMetadata, Seq<u8>)>, from: int, to: int)
    requires
        0 <= from <= to <= tuples.len(),
        forall|i: int| from <= i < to ==> (#[trigger] tuples[i]).0.is_deleted,
    ensures
        next_live(tuples, from) == next_live(tuples, to),
    decreases to - from,
{
    if from < to {
        lemma_next_live_skips(tuples, from + 1, to);
    }
}

/// A step of the scan takes the first of the live tuples that lie ahead on
/// the page and leaves the rest; it takes none only where none is left.
pub proof fn lemma_step_takes_first(cursor: CursorView, page: TablePageView)
    requires
        cursor.page_id == page.page_id,
    ensures
        match cursor.step(page).1 {
            Some(item) => live_items_from(page, cursor.slot as int) == seq![item]
                + live_items_from(page, cursor.step(page).0.slot as int),
            None => live_items_from(page, cursor.slot as int) == Seq::<(u64, Seq<u8>)>::empty(),
        },
    decreases page.tuples.len() - cursor.slot,
{
    let from = cursor.slot as int;
    if from < page.tuples.len() && page.tuples[from].0.is_deleted {
        let ahead = CursorView { page_id: cursor.page_id, slot: (from + 1) as nat };
        lemma_step_takes_first(ahead, page);
        if from + 1 >= page.tuples.len() {
            assert(next_live(page.tuples, from + 1) == page.tuples.len());
        }
    }
}

/// The id of the page at place `at` of a chain; behind the last page, the
/// id that ends a chain.
pub open spec fn chain_link(pages: Seq<TablePageView>, at: int) -> PageId {
    if 0 <= at < pages.len() {
        pages[at].page_id
    } else {
        INVALID_PAGE_ID
    }
}

/// `pages` is the chain of pages of a heap that begins with the page
/// `first_page_id`: every page names the page behind it as its successor, and
/// the last page names none.
pub open spec fn is_chain(pages: Seq<TablePageView>, first_page_id: PageId) -> bool {
    &&& first_page_id == chain_link(pages, 0)
    &&& forall|i: int|
        0 <= i < pages.len() ==> (#[trigger] pages[i]).page_id != INVALID_PAGE_ID
            && pages[i].next_page_id == chain_link(pages, i + 1)
}

/// The live tuples of the pages from place `at` on, page by page in chain
/// order and in slot order within a page.
pub open spec fn chain_items_from(pages: Seq<TablePageView>, at: int) -> Seq<(u64, Seq<u8>)>
    decreases pages.len() - at,
{
    if at < 0 || at >= pages.len() {
        Seq::empty()
    } else {
        live_items(pages[at]) + chain_items_from(pages, at + 1)
    }
}

/// The live tuples of a chain of pages.
pub open spec fn chain_items(pages: Seq<TablePageView>) -> Seq<(u64, Seq<u8>)> {
    chain_items_from(pages, 0)
}

/// What a scan hands out from `cursor` on, when the page at place `at` of
/// the chain is the next one to be fetched: nothing where the scan is over or
/// asks for another page; else what step after step gives, each step on the
/// page that the cursor asks for.
pub open spec fn scan_yields(pages: Seq<TablePageView>, at: int, cursor: CursorView) -> Seq<
    (u64, Seq<u8>),
>
    decreases pages.len() - at, chain_link_len(pages, at) - cursor.slot,
{
    if at < 0 || at >= pages.len() || cursor.at_end() || cursor.page_id != pages[at].page_id {
        Seq::empty()
    } else {
        let (next, item) = cursor.step(pages[at]);
        match item {
            Some(found) => {
                proof {
                    lemma_next_live_bounds(pages[at].tuples, cursor.slot as int);
                }
                seq![found] + scan_yields(pages, at, next)
            },
            None => scan_yields(pages, at + 1, next),
        }
    }
}

/// The number of tuples of the page at place `at` of a chain.
pub open spec fn chain_link_len(pages: Seq<TablePageView>, at: int) -> int {
    if 0 <= at < pages.len() {
        pages[at].tuples.len() as int
    } else {
        0
    }
}

/// A scan that stands on the page at place `at` of a chain, before one of
/// its slots, hands out the live tuples that lie ahead on that page and then
/// those of the pages behind it.
pub proof fn lemma_scan_from(pages: Seq<TablePageView>, first_page_id: PageId, at: int, slot: nat)
    requires
        is_chain(pages, first_page_id),
        0 <= at < pages.len(),
    ensures
        scan_yields(pages, at, CursorView { page_id: pages[at].page_id, slot })
            == live_items_from(pages[at], slot as int) + chain_items_from(pages, at + 1),
    decreases pages.len() - at, pages[at].tuples.len() - slot,
{
    let page = pages[at];
    let cursor = CursorView { page_id: page.page_id, slot };
    assert(page.page_id != INVALID_PAGE_ID);
    lemma_step_takes_first(cursor, page);
    lemma_next_live_bounds(page.tuples, slot as int);
    let (next, item) = cursor.step(page);
    match item {
        Some(found) => {
            lemma_scan_from(pages, first_page_id, at, next.slot);
            assert(seq![found] + (live_items_from(page, next.slot as int) + chain_items_from(
                pages,
                at + 1,
            )) =~= (seq![found] + live_items_from(page, next.slot as int)) + chain_items_from(
                pages,
                at + 1,
            ));
        },
        None => {
            assert(next == CursorView { page_id: chain_link(pages, at + 1), slot: 0 });
            if at + 1 < pages.len() {
                lemma_scan_from(pages, first_page_id, at + 1, 0);
            }
            assert(Seq::<(u64, Seq<u8>)>::empty() + chain_items_from(pages, at + 1)
                =~= chain_items_from(pages, at + 1));
            assert(scan_yields(pages, at, cursor) == scan_yields(pages, at + 1, next));
            assert(scan_yields(pages, at + 1, next) == chain_items_from(pages, at + 1));
        },
    }
}

/// A scan from the first page of a heap hands out the tuples of the heap
/// that are not deleted, each once: in slot order within a page, and page by
/// page in the order of the chain.
pub proof fn lemma_scan_complete(pages: Seq<TablePageView>, first_page_id: PageId)
    requires
        is_chain(pages, first_page_id),
    ensures
        scan_yields(pages, 0, CursorView { page_id: first_page_id, slot: 0 }) == chain_items(
            pages,
        ),
{
    if pages.len() > 0 {
        lemma_scan_from(pages, first_page_id, 0, 0);
    }
}

/// What a scan hands out of a page are the page's tuples that are not
/// deleted: every item stands for a slot whose tuple is live, and has that
/// slot's record id and bytes.
pub proof fn lemma_live_items_are_live(page: TablePageView, from: int, k: int)
    requires
        0 <= from,
        page.tuples.len() < u32::MAX,
        0 <= k < live_items_from(page, from).len(),
    ensures
        exists|slot: int|
            from <= slot < page.tuples.len() && !page.tuples[slot].0.is_deleted
                && #[trigger] live_items_from(page, from)[k] == (
                pack(page.page_id, slot as u32),
                page.tuples[slot].1,
            ),
    decreases page.tuples.len() - from,
{
    if from < page.tuples.len() {
        if page.tuples[from].0.is_deleted {
            lemma_live_items_are_live(page, from + 1, k);
        } else if k > 0 {
            lemma_live_items_are_live(page, from + 1, k - 1);
            let slot = choose|slot: int|
                from + 1 <= slot < page.tuples.len() && !page.tuples[slot].0.is_deleted
                    && #[trigger] live_items_from(page, from + 1)[k - 1] == (
                    pack(page.page_id, slot as u32),
                    page.tuples[slot].1,
                );
            assert(live_items_from(page, from)[k] == live_items_from(page, from + 1)[k - 1]);
        } else {
            assert(live_items_from(page, from)[k] == (
                pack(page.page_id, from as u32),
                page.tuples[from].1,
            ));
        }
    }
}

/// A scan does not hand out a deleted tuple: no item of a page has the
/// record id of a slot whose tuple is deleted.
pub proof fn lemma_deleted_not_scanned(page: TablePage, rid: RecordId, k: int)
    requires
        page.wf(),
        page@.owns(rid),
        page@.tuples[rid.slot_id as int].0.is_deleted,
        0 <= k < live_items(page@).len(),
    ensures
        live_items(page@)[k].0 != rid.spec_to_u64(),
{
    lemma_live_items_are_live(page@, 0, k);
    let slot = choose|slot: int|
        0 <= slot < page@.tuples.len() && !page@.tuples[slot].0.is_deleted
            && #[trigger] live_items_from(page@, 0)[k] == (
            pack(page@.page_id, slot as u32),
            page@.tuples[slot].1,
        );
    lemma_pack_is_sum(page@.page_id, slot as u32);
    lemma_pack_is_sum(rid.page_id, rid.slot_id);
}

/// After the tuple that `rid` addresses was marked as deleted, reading it
/// shows the mark, and a scan of the page does not hand it out.
pub proof fn lemma_deletion_visible(before: TablePage, after: TablePage, rid: RecordId)
    requires
        before.wf(),
        after.wf(),
        before@.owns(rid),
        after@ == before@.with_metadata(rid.slot_id as int, TupleMetadata { is_deleted: true }),
    ensures
        after@.owns(rid),
        after@.tuples[rid.slot_id as int].0.is_deleted,
        after@.tuples[rid.slot_id as int].1 == before@.tuples[rid.slot_id as int].1,
        forall|k: int|
            0 <= k < live_items(after@).len() ==> (#[trigger] live_items(after@)[k]).0
                != rid.spec_to_u64(),
{
    assert forall|k: int| 0 <= k < live_items(after@).len() implies (#[trigger] live_items(
        after@,
    )[k]).0 != rid.spec_to_u64() by {
        lemma_deleted_not_scanned(after, rid, k);
    }
}

/// Cursor of a scan over the live tuples of a chain of table pages. It holds
/// no page: whoever drives it fetches the page it stands on, hands it in, and
/// lets it go after the call.
#[derive(Debug, Clone, Copy, PartialEq, Eq, Structural)]
pub struct TableTupleIterator {
    current_page_id: PageId,
    current_slot: u32,
}

/// What one step of the scan on a fetched page gave.
#[derive(Debug)]
pub enum PageScan {
    /// The next live tuple, with its packed record id.
    Tuple(u64, Tuple),
    /// The page is not the one the cursor stands on, so the slot could not
    /// be read.
    Invalid(Error),
    /// The page has no live tuple left. The cursor has moved to the next
    /// page of the chain.
    Exhausted,
}

impl View for TableTupleIterator {
    type V = CursorView;

    closed spec fn view(&self) -> CursorView {
        CursorView { page_id: self.current_page_id, slot: self.current_slot as nat }
    }
}

impl TableTupleIterator {
    /// A cursor before the first slot of the page `first_page_id`, the first
    /// page of a heap.
    pub fn new(first_page_id: PageId) -> (cursor: Self)
        ensures
            cursor@ == (CursorView { page_id: first_page_id, slot: 0 }),
    {
        TableTupleIterator { current_page_id: first_page_id, current_slot: 0 }
    }

    /// The page the cursor stands on.
    pub fn current_page_id(&self) -> (id: PageId)
        ensures
            id == self@.page_id,
    {
        self.current_page_id
    }

    /// The slot the cursor stands before.
    pub fn current_slot(&self) -> (slot: u32)
        ensures
            slot == self@.slot,
    {
        self.current_slot
    }

    /// The page to fetch for the next step; `None` where the scan has left
    /// the last page of the chain and is over.
    pub fn page_to_fetch(&self) -> (wanted: Option<PageId>)
        ensures
            wanted == if self@.at_end() {
                None
            } else {
                Some(self@.page_id)
            },
    {
        if self.current_page_id == INVALID_PAGE_ID {
            None
        } else {
            Some(self.current_page_id)
        }
    }

    /// One step of the scan on `page`, the page that was fetched for the
    /// cursor. It passes over deleted tuples and hands out the next live one
    /// with its packed record id; where the page has none left, it moves to
    /// the first slot of the next page. Where `page` is another page than the
    /// one the cursor stands on and still has a slot ahead, the cursor passes
    /// that slot and the step gives `InvalidInput` with the record id that it
    /// could not read.
    pub fn scan_page(&mut self, page: &TablePage) -> (found: PageScan)
        requires
            page.wf(),
        ensures
            if old(self)@.slot < page@.tuples.len() && page@.page_id != old(self)@.page_id {
                &&& final(self)@ == (CursorView {
                    page_id: old(self)@.page_id,
                    slot: old(self)@.slot + 1,
                })
                &&& found matches PageScan::Invalid(e) && (e matches Error::InvalidInput(text)
                    && text@ == record_id_text(
                    RecordId { page_id: old(self)@.page_id, slot_id: old(self)@.slot as u32 },
                ))
            } else {
                &&& final(self)@ == old(self)@.step(page@).0
                &&& match old(self)@.step(page@).1 {
                    Some(item) => found matches PageScan::Tuple(rid, tuple) && (rid, tuple@)
                        == item,
                    None => found is Exhausted,
                }
            },
    {
        let count = page.tuple_count();
        let ghost start = self.current_slot as int;
        while self.current_slot < count
            invariant
                page.wf(),
                count == page@.tuples.len(),
                self.current_page_id == old(self).current_page_id,
                start == old(self).current_slot,
                start <= self.current_slot,
                self.current_slot > start ==> page@.page_id == self.current_page_id,
                forall|i: int|
                    start <= i < self.current_slot ==> (#[trigger] page@.tuples[i]).0.is_deleted,
            decreases count - self.current_slot,
        {
            let slot_id = self.current_slot;
            self.current_slot += 1;
            let rid = RecordId::new(self.current_page_id, slot_id);
            let packed = rid.to_u64();
            match page.get_tuple(&rid) {
                Ok(found) => {
                    let (meta, tuple) = found;
                    if !meta.is_deleted() {
                        proof {
                            lemma_next_live_skips(page@.tuples, start, slot_id as int);
                        }
                        return PageScan::Tuple(packed, tuple);
                    }
                },
                Err(e) => {
                    return PageScan::Invalid(e);
                },
            }
        }
        proof {
            if start < count {
                lemma_next_live_skips(page@.tuples, start, count as int);
            }
        }
        self.current_page_id = page.next_page_id();
        self.current_slot = 0;
        PageScan::Exhausted
    }
}

} // verus!
