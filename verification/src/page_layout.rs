use vstd::prelude::*;
use crate::layout::{
    lemma_bytes_len, lemma_u16_same, lemma_u16_written, lemma_u32_same, lemma_u32_written,
    lemma_zero_bytes, lemma_zero_u32,
    spec_u16_at, spec_u16_bytes, spec_u32_at, spec_u32_bytes, splice,
};
use crate::record_id::RecordId;
use crate::table_page::{
    TablePageHeader, TupleInfo, TupleMetadata, TABLE_PAGE_HEADER_SIZE, TUPLE_INFO_SIZE,
};
use crate::typedef::{PageId, PAGE_SIZE};

verus! {

/// The header that the first bytes of a page hold: three 32-bit fields, low
/// byte first.
pub open spec fn header_of(bytes: Seq<u8>) -> TablePageHeader {
    TablePageHeader {
        next_page_id: spec_u32_at(bytes, 0),
        tuple_cnt: spec_u32_at(bytes, 4),
        deleted_tuple_cnt: spec_u32_at(bytes, 8),
    }
}

/// The bytes of a header: its three fields and four zero bytes.
pub open spec fn header_bytes(header: TablePageHeader) -> Seq<u8> {
    spec_u32_bytes(header.next_page_id) + spec_u32_bytes(header.tuple_cnt) + spec_u32_bytes(
        header.deleted_tuple_cnt,
    ) + seq![0u8, 0u8, 0u8, 0u8]
}

/// Where the directory entry of slot `slot` begins.
pub open spec fn slot_pos(slot: int) -> int {
    TABLE_PAGE_HEADER_SIZE + slot * TUPLE_INFO_SIZE
}

/// The directory entry of slot `slot`: two 16-bit fields, low byte first, and
/// the deletion flag, which is set where its byte is not zero.
pub open spec fn slot_of(bytes: Seq<u8>, slot: int) -> TupleInfo {
    TupleInfo {
        offset: spec_u16_at(bytes, slot_pos(slot)),
        size_bytes: spec_u16_at(bytes, slot_pos(slot) + 2),
        metadata: TupleMetadata { is_deleted: bytes[slot_pos(slot) + 4] != 0 },
    }
}

/// The byte that stands for a deletion flag.
pub open spec fn flag_byte(is_deleted: bool) -> u8 {
    if is_deleted {
        1
    } else {
        0
    }
}

/// The bytes of a directory entry: offset, size, deletion flag, and one zero
/// byte.
pub open spec fn slot_bytes(info: TupleInfo) -> Seq<u8> {
    spec_u16_bytes(info.offset) + spec_u16_bytes(info.size_bytes) + seq![
        flag_byte(info.metadata.is_deleted),
        0u8,
    ]
}

/// The bytes of the tuple in slot `slot`.
pub open spec fn payload_of(bytes: Seq<u8>, slot: int) -> Seq<u8> {
    let info = slot_of(bytes, slot);
    bytes.subrange(info.offset as int, info.offset + info.size_bytes)
}

/// The number of slots among the first `slots` whose deletion flag is set.
pub open spec fn tombstones(bytes: Seq<u8>, slots: int) -> int
    decreases slots,
{
    if slots <= 0 {
        0
    } else {
        tombstones(bytes, slots - 1) + if slot_of(bytes, slots - 1).metadata.is_deleted {
            1int
        } else {
            0int
        }
    }
}

/// Where the payload of the slot before `slot` begins; for the first slot,
/// the end of the page.
pub open spec fn payload_limit(bytes: Seq<u8>, slot: int) -> int {
    if slot <= 0 {
        PAGE_SIZE as int
    } else {
        slot_of(bytes, slot - 1).offset as int
    }
}

/// `bytes` is a table page: a page-sized block whose slot directory lies in
/// the page and below every payload, whose payloads are stacked downwards
/// from the end of the page in slot order, whose reserved bytes are zero, and
/// whose count of deleted tuples does not exceed the number of slots with
/// the deletion flag set.
pub open spec fn layout_ok(bytes: Seq<u8>) -> bool {
    let header = header_of(bytes);
    &&& bytes.len() == PAGE_SIZE
    &&& slot_pos(header.tuple_cnt as int) <= PAGE_SIZE
    &&& forall|i: int| 12 <= i < 16 ==> bytes[i] == 0
    &&& forall|i: int|
        0 <= i < header.tuple_cnt ==> {
            &&& (#[trigger] slot_of(bytes, i)).offset + slot_of(bytes, i).size_bytes
                == payload_limit(bytes, i)
            &&& slot_of(bytes, i).offset >= slot_pos(header.tuple_cnt as int)
            &&& bytes[slot_pos(i) + 5] == 0
        }
    &&& header.deleted_tuple_cnt <= tombstones(bytes, header.tuple_cnt as int)
}

/// A table page as its users see it: its own id, the id of the next page in
/// the chain, the count of deleted tuples in its header, and its tuples in
/// slot order, each with its metadata.
pub struct TablePageView {
    pub page_id: PageId,
    pub next_page_id: PageId,
    pub deleted_tuple_cnt: u32,
    pub tuples: Seq<(TupleMetadata, Seq<u8>)>,
}

impl TablePageView {
    /// `rid` addresses a tuple of this page.
    pub open spec fn owns(self, rid: RecordId) -> bool {
        rid.page_id == self.page_id && rid.slot_id < self.tuples.len()
    }

    /// The page with one more tuple in a new last slot.
    pub open spec fn insert(self, meta: TupleMetadata, data: Seq<u8>) -> TablePageView {
        TablePageView {
            page_id: self.page_id,
            next_page_id: self.next_page_id,
            deleted_tuple_cnt: self.deleted_tuple_cnt,
            tuples: self.tuples.push((meta, data)),
        }
    }

    /// The count of deleted tuples after the tuple in `slot` got the
    /// deletion flag `is_deleted`: one more where a live tuple was deleted,
    /// one less, but not below zero, where a deleted one came back.
    pub open spec fn deleted_cnt_after(self, slot: int, is_deleted: bool) -> u32 {
        let was_deleted = self.tuples[slot].0.is_deleted;
        if !was_deleted && is_deleted {
            (self.deleted_tuple_cnt + 1) as u32
        } else if was_deleted && !is_deleted && self.deleted_tuple_cnt > 0 {
            (self.deleted_tuple_cnt - 1) as u32
        } else {
            self.deleted_tuple_cnt
        }
    }

    /// The page with the metadata of the tuple in `slot` replaced.
    pub open spec fn with_metadata(self, slot: int, meta: TupleMetadata) -> TablePageView {
        TablePageView {
            page_id: self.page_id,
            next_page_id: self.next_page_id,
            deleted_tuple_cnt: self.deleted_cnt_after(slot, meta.is_deleted),
            tuples: self.tuples.update(slot, (meta, self.tuples[slot].1)),
        }
    }
}

/// The tuples that the bytes of a page hold, in slot order.
pub open spec fn tuples_of(bytes: Seq<u8>) -> Seq<(TupleMetadata, Seq<u8>)> {
    Seq::new(
        header_of(bytes).tuple_cnt as nat,
        |i: int| (slot_of(bytes, i).metadata, payload_of(bytes, i)),
    )
}


/// The page with id `page_id` that `bytes` hold.
pub open spec fn page_view(page_id: PageId, bytes: Seq<u8>) -> TablePageView {
    TablePageView {
        page_id,
        next_page_id: header_of(bytes).next_page_id,
        deleted_tuple_cnt: header_of(bytes).deleted_tuple_cnt,
        tuples: tuples_of(bytes),
    }
}

/// Whether a tuple of `len` bytes fits into the page: its payload would
/// begin at or behind the end of the directory with one more entry.
pub open spec fn fits(bytes: Seq<u8>, len: nat) -> bool {
    let cnt = header_of(bytes).tuple_cnt as int;
    payload_limit(bytes, cnt) - len >= slot_pos(cnt + 1)
}

/// The directory entry that a new tuple of `len` bytes gets: its payload
/// ends where the payload of the last slot begins or, in an empty page, at
/// the end of the page.
pub open spec fn next_slot(bytes: Seq<u8>, meta: TupleMetadata, len: nat) -> TupleInfo {
    let cnt = header_of(bytes).tuple_cnt as int;
    TupleInfo {
        offset: (payload_limit(bytes, cnt) - len) as u16,
        size_bytes: len as u16,
        metadata: meta,
    }
}

/// The bytes of a page after a tuple was inserted: the tuple count in the
/// header is one higher, the new directory entry stands behind the old ones,
/// and the payload lies where that entry says.
pub open spec fn insert_bytes(bytes: Seq<u8>, meta: TupleMetadata, data: Seq<u8>) -> Seq<u8> {
    let cnt = header_of(bytes).tuple_cnt;
    let info = next_slot(bytes, meta, data.len());
    splice(
        splice(splice(bytes, 4, spec_u32_bytes((cnt + 1) as u32)), slot_pos(cnt as int), slot_bytes(info)),
        info.offset as int,
        data,
    )
}

/// The bytes of a page after the deletion flag of the tuple in `slot` was
/// set to `is_deleted`: the flag's byte and the count of deleted tuples in
/// the header change, nothing else.
pub open spec fn update_bytes(bytes: Seq<u8>, slot: int, is_deleted: bool) -> Seq<u8> {
    splice(
        splice(bytes, slot_pos(slot) + 4, seq![flag_byte(is_deleted)]),
        8,
        spec_u32_bytes(page_view(0, bytes).deleted_cnt_after(slot, is_deleted)),
    )
}

/// Two byte strings hold the same bytes at the positions from `lo` up to,
/// and without, `hi`.
pub open spec fn same_on(a: Seq<u8>, b: Seq<u8>, lo: int, hi: int) -> bool {
    forall|k: int| lo <= k < hi ==> a[k] == b[k]
}

/// A directory entry depends on its six bytes alone.
pub proof fn lemma_slot_same(a: Seq<u8>, b: Seq<u8>, slot: int)
    requires
        same_on(a, b, slot_pos(slot), slot_pos(slot) + 6),
    ensures
        slot_of(a, slot) == slot_of(b, slot),
        a[slot_pos(slot) + 5] == b[slot_pos(slot) + 5],
{
    lemma_u16_same(a, b, slot_pos(slot));
    lemma_u16_same(a, b, slot_pos(slot) + 2);
}

/// Reading a directory entry where its bytes were written gives the entry
/// back.
pub proof fn lemma_slot_written(bytes: Seq<u8>, slot: int, info: TupleInfo)
    requires
        0 <= slot,
        slot_pos(slot) + 6 <= bytes.len(),
    ensures
        slot_of(splice(bytes, slot_pos(slot), slot_bytes(info)), slot) == info,
        splice(bytes, slot_pos(slot), slot_bytes(info))[slot_pos(slot) + 5] == 0,
{
    let p = slot_pos(slot);
    let after = splice(bytes, p, slot_bytes(info));
    lemma_bytes_len(info.offset, 0);
    lemma_bytes_len(info.size_bytes, 0);
    let first = splice(bytes, p, spec_u16_bytes(info.offset));
    lemma_u16_written(bytes, p, info.offset);
    lemma_u16_same(after, first, p);
    let second = splice(bytes, p + 2, spec_u16_bytes(info.size_bytes));
    lemma_u16_written(bytes, p + 2, info.size_bytes);
    lemma_u16_same(after, second, p + 2);
}

/// The limit under which a slot's payload ends does not rise from slot to
/// slot.
pub proof fn lemma_limit_monotone(bytes: Seq<u8>, i: int, j: int)
    requires
        layout_ok(bytes),
        0 <= i <= j <= header_of(bytes).tuple_cnt,
    ensures
        payload_limit(bytes, j) <= payload_limit(bytes, i),
    decreases j - i,
{
    if i < j {
        lemma_limit_monotone(bytes, i, j - 1);
        assert(slot_of(bytes, j - 1).offset + slot_of(bytes, j - 1).size_bytes == payload_limit(
            bytes,
            j - 1,
        ));
    }
}

/// In a table page the slot directory ends at or before every payload,
/// every payload lies within the page, and the payload of a later slot ends
/// at or before the payload of an earlier one begins.
pub proof fn lemma_payloads_apart(bytes: Seq<u8>)
    requires
        layout_ok(bytes),
    ensures
        forall|i: int|
            0 <= i < header_of(bytes).tuple_cnt ==> slot_pos(header_of(bytes).tuple_cnt as int) <= (
            #[trigger] slot_of(bytes, i)).offset && slot_of(bytes, i).offset + slot_of(
                bytes,
                i,
            ).size_bytes <= PAGE_SIZE,
        forall|i: int, j: int|
            0 <= i < j < header_of(bytes).tuple_cnt ==> (#[trigger] slot_of(bytes, j)).offset
                + slot_of(bytes, j).size_bytes <= (#[trigger] slot_of(bytes, i)).offset,
{
    let cnt = header_of(bytes).tuple_cnt as int;
    assert forall|i: int| 0 <= i < cnt implies slot_pos(cnt) <= (#[trigger] slot_of(
        bytes,
        i,
    )).offset && slot_of(bytes, i).offset + slot_of(bytes, i).size_bytes <= PAGE_SIZE by {
        lemma_limit_monotone(bytes, 0, i);
    }
    assert forall|i: int, j: int| 0 <= i < j < cnt implies (#[trigger] slot_of(bytes, j)).offset
        + slot_of(bytes, j).size_bytes <= (#[trigger] slot_of(bytes, i)).offset by {
        lemma_limit_monotone(bytes, i + 1, j);
    }
}

/// The number of deletion flags that are set among the first `slots` slots
/// lies between zero and `slots`.
pub proof fn lemma_tombstones_bounds(bytes: Seq<u8>, slots: int)
    requires
        0 <= slots,
    ensures
        0 <= tombstones(bytes, slots) <= slots,
    decreases slots,
{
    if slots > 0 {
        lemma_tombstones_bounds(bytes, slots - 1);
    }
}

/// Where two pages agree on the deletion flags of the first `slots` slots,
/// except for that of `changed`, their numbers of set flags differ by what
/// that one flag makes.
pub proof fn lemma_tombstones_differ(before: Seq<u8>, after: Seq<u8>, slots: int, changed: int)
    requires
        0 <= slots,
        forall|i: int|
            0 <= i < slots && i != changed ==> (#[trigger] slot_of(after, i)).metadata.is_deleted
                == slot_of(before, i).metadata.is_deleted,
    ensures
        tombstones(after, slots) == tombstones(before, slots) + if 0 <= changed < slots {
            flag_byte(slot_of(after, changed).metadata.is_deleted) - flag_byte(
                slot_of(before, changed).metadata.is_deleted,
            )
        } else {
            0
        },
    decreases slots,
{
    if slots > 0 {
        lemma_tombstones_differ(before, after, slots - 1, changed);
        if slots - 1 != changed {
            assert(slot_of(after, slots - 1).metadata.is_deleted == slot_of(
                before,
                slots - 1,
            ).metadata.is_deleted);
        }
    }
}

/// A change to a table page that keeps the tuple count, the reserved bytes
/// of the header, and the place and size of every slot, and leaves every
/// payload's bytes alone, changes no payload and no stacking of payloads.
pub proof fn lemma_extents_kept(before: Seq<u8>, after: Seq<u8>)
    requires
        layout_ok(before),
        after.len() == before.len(),
        header_of(after).tuple_cnt == header_of(before).tuple_cnt,
        same_on(after, before, 12, 16),
        forall|i: int|
            0 <= i < header_of(before).tuple_cnt ==> (#[trigger] slot_of(after, i)).offset
                == slot_of(before, i).offset && slot_of(after, i).size_bytes == slot_of(
                before,
                i,
            ).size_bytes && after[slot_pos(i) + 5] == 0,
        same_on(
            after,
            before,
            payload_limit(before, header_of(before).tuple_cnt as int),
            PAGE_SIZE as int,
        ),
        header_of(after).deleted_tuple_cnt <= tombstones(
            after,
            header_of(before).tuple_cnt as int,
        ),
    ensures
        layout_ok(after),
        forall|i: int|
            0 <= i < header_of(before).tuple_cnt ==> #[trigger] payload_of(after, i) == payload_of(
                before,
                i,
            ),
{
    let cnt = header_of(before).tuple_cnt as int;
    lemma_payloads_apart(before);
    assert forall|i: int| 0 <= i < cnt implies #[trigger] payload_of(after, i) == payload_of(
        before,
        i,
    ) by {
        lemma_limit_monotone(before, i + 1, cnt);
        assert(slot_of(after, i).offset == slot_of(before, i).offset);
        assert(payload_of(after, i) =~= payload_of(before, i));
    }
    assert forall|i: int| 0 <= i < cnt implies (#[trigger] slot_of(after, i)).offset + slot_of(
        after,
        i,
    ).size_bytes == payload_limit(after, i) && slot_of(after, i).offset >= slot_pos(cnt) by {
        assert(slot_of(after, i).offset == slot_of(before, i).offset);
        if i > 0 {
            assert(slot_of(after, i - 1).offset == slot_of(before, i - 1).offset);
        }
    }
}

/// A page-sized block whose header says that it holds no tuple, and whose
/// reserved bytes are zero, is a table page without tuples.
pub proof fn lemma_empty_page(bytes: Seq<u8>)
    requires
        bytes.len() == PAGE_SIZE,
        forall|k: int| 4 <= k < 16 ==> bytes[k] == 0,
    ensures
        layout_ok(bytes),
        header_of(bytes).tuple_cnt == 0,
        header_of(bytes).deleted_tuple_cnt == 0,
        tuples_of(bytes) == Seq::<(TupleMetadata, Seq<u8>)>::empty(),
{
    lemma_zero_u32(bytes, 4);
    lemma_zero_u32(bytes, 8);
    assert(tuples_of(bytes) =~= Seq::<(TupleMetadata, Seq<u8>)>::empty());
}

/// Writing the header of an empty page over the first bytes of a page-sized
/// block gives a table page without tuples, whatever the block held.
pub proof fn lemma_init_header(bytes: Seq<u8>, next_page_id: PageId)
    requires
        bytes.len() == PAGE_SIZE,
    ensures
        layout_ok(splice(bytes, 0, header_bytes(TablePageHeader::empty(next_page_id)))),
        header_of(splice(bytes, 0, header_bytes(TablePageHeader::empty(next_page_id))))
            == TablePageHeader::empty(next_page_id),
        tuples_of(splice(bytes, 0, header_bytes(TablePageHeader::empty(next_page_id))))
            == Seq::<(TupleMetadata, Seq<u8>)>::empty(),
{
    let after = splice(bytes, 0, header_bytes(TablePageHeader::empty(next_page_id)));
    let first = splice(bytes, 0, spec_u32_bytes(next_page_id));
    lemma_bytes_len(0, next_page_id);
    lemma_zero_bytes();
    lemma_u32_written(bytes, 0, next_page_id);
    lemma_u32_same(after, first, 0);
    lemma_empty_page(after);
}

/// Inserting a tuple that fits gives a table page again. Its header has one
/// more tuple and is the same otherwise; the old slots and payloads stay;
/// the new slot is the last one and holds the tuple.
pub proof fn lemma_insert(bytes: Seq<u8>, meta: TupleMetadata, data: Seq<u8>)
    requires
        layout_ok(bytes),
        fits(bytes, data.len()),
    ensures
        layout_ok(insert_bytes(bytes, meta, data)),
        header_of(insert_bytes(bytes, meta, data)) == (TablePageHeader {
            tuple_cnt: (header_of(bytes).tuple_cnt + 1) as u32,
            ..header_of(bytes)
        }),
        tuples_of(insert_bytes(bytes, meta, data)) == tuples_of(bytes).push((meta, data)),
        slot_of(insert_bytes(bytes, meta, data), header_of(bytes).tuple_cnt as int) == next_slot(
            bytes,
            meta,
            data.len(),
        ),
        forall|i: int|
            0 <= i < header_of(bytes).tuple_cnt ==> #[trigger] slot_of(
                insert_bytes(bytes, meta, data),
                i,
            ) == slot_of(bytes, i),
{
    let cnt = header_of(bytes).tuple_cnt as int;
    let info = next_slot(bytes, meta, data.len());
    let off = payload_limit(bytes, cnt) - data.len();
    let p = slot_pos(cnt);
    let b1 = splice(bytes, 4, spec_u32_bytes((cnt + 1) as u32));
    let b2 = splice(b1, p, slot_bytes(info));
    let after = splice(b2, off, data);
    lemma_payloads_apart(bytes);
    lemma_limit_monotone(bytes, 0, cnt);
    lemma_bytes_len(info.offset, (cnt + 1) as u32);
    lemma_bytes_len(info.size_bytes, (cnt + 1) as u32);
    assert(info.offset == off);
    assert(info.size_bytes == data.len());
    assert(after == insert_bytes(bytes, meta, data));
    // the header
    lemma_u32_written(bytes, 4, (cnt + 1) as u32);
    lemma_u32_same(after, b1, 4);
    lemma_u32_same(after, bytes, 0);
    lemma_u32_same(after, bytes, 8);
    assert(header_of(after).tuple_cnt == cnt + 1);
    // the new slot
    lemma_slot_written(b1, cnt, info);
    assert(same_on(after, b2, p, p + 6));
    lemma_slot_same(after, b2, cnt);
    assert(slot_of(after, cnt) == info);
    assert(payload_of(after, cnt) =~= data);
    // the old slots
    assert forall|i: int| 0 <= i < cnt implies #[trigger] slot_of(after, i) == slot_of(bytes, i)
        && after[slot_pos(i) + 5] == 0 && payload_of(after, i) == payload_of(bytes, i) by {
        assert(same_on(after, bytes, slot_pos(i), slot_pos(i) + 6));
        lemma_slot_same(after, bytes, i);
        lemma_limit_monotone(bytes, i + 1, cnt);
        assert(slot_of(bytes, i).offset >= slot_pos(cnt));
        assert(slot_of(bytes, i).offset + slot_of(bytes, i).size_bytes <= PAGE_SIZE);
        assert(payload_of(after, i) =~= payload_of(bytes, i));
    }
    assert forall|i: int| 0 <= i < cnt + 1 implies (#[trigger] slot_of(after, i)).offset + slot_of(
        after,
        i,
    ).size_bytes == payload_limit(after, i) && slot_of(after, i).offset >= slot_pos(cnt + 1)
        && after[slot_pos(i) + 5] == 0 by {
        if i > 0 {
            assert(slot_of(after, i - 1) == slot_of(bytes, i - 1));
        }
        if i < cnt {
            assert(slot_of(after, i) == slot_of(bytes, i));
            lemma_limit_monotone(bytes, i + 1, cnt);
        }
    }
    lemma_tombstones_differ(bytes, after, cnt, cnt);
    lemma_tombstones_bounds(after, cnt);
    assert(tuples_of(after) =~= tuples_of(bytes).push((meta, data)));
}

/// Setting the deletion flag of a slot of a table page gives a table page
/// again. The slot keeps its place and its payload and has the new flag; the
/// other slots and the rest of the header stay as they are.
pub proof fn lemma_update(bytes: Seq<u8>, slot: int, is_deleted: bool)
    requires
        layout_ok(bytes),
        0 <= slot < header_of(bytes).tuple_cnt,
    ensures
        layout_ok(update_bytes(bytes, slot, is_deleted)),
        header_of(update_bytes(bytes, slot, is_deleted)) == (TablePageHeader {
            deleted_tuple_cnt: page_view(0, bytes).deleted_cnt_after(slot, is_deleted),
            ..header_of(bytes)
        }),
        tuples_of(update_bytes(bytes, slot, is_deleted)) == tuples_of(bytes).update(
            slot,
            (TupleMetadata { is_deleted }, tuples_of(bytes)[slot].1),
        ),
        forall|i: int|
            0 <= i < header_of(bytes).tuple_cnt ==> #[trigger] slot_of(
                update_bytes(bytes, slot, is_deleted),
                i,
            ) == if i == slot {
                TupleInfo { metadata: TupleMetadata { is_deleted }, ..slot_of(bytes, i) }
            } else {
                slot_of(bytes, i)
            },
{
    let cnt = header_of(bytes).tuple_cnt as int;
    let deleted = page_view(0, bytes).deleted_cnt_after(slot, is_deleted);
    let f = slot_pos(slot) + 4;
    let b1 = splice(bytes, f, seq![flag_byte(is_deleted)]);
    let after = splice(b1, 8, spec_u32_bytes(deleted));
    assert(after == update_bytes(bytes, slot, is_deleted));
    lemma_payloads_apart(bytes);
    lemma_limit_monotone(bytes, 0, cnt);
    lemma_bytes_len(0, deleted);
    assert(after.len() == bytes.len());
    assert(forall|k: int| 0 <= k < 8 || 12 <= k < f || f < k < PAGE_SIZE ==> after[k] == bytes[k]);
    assert(after[f] == flag_byte(is_deleted));
    // the header
    lemma_u32_written(b1, 8, deleted);
    lemma_u32_same(after, bytes, 0);
    lemma_u32_same(after, bytes, 4);
    assert(header_of(after).tuple_cnt == cnt);
    assert(header_of(after).deleted_tuple_cnt == deleted);
    // the slots
    assert forall|i: int| 0 <= i < cnt implies #[trigger] slot_of(after, i) == (if i == slot {
        TupleInfo { metadata: TupleMetadata { is_deleted }, ..slot_of(bytes, i) }
    } else {
        slot_of(bytes, i)
    }) && after[slot_pos(i) + 5] == 0 by {
        lemma_update_slot(bytes, after, slot, i, is_deleted);
    }
    assert(tuples_of(bytes)[slot].0 == slot_of(bytes, slot).metadata);
    lemma_tombstones_differ(bytes, after, cnt, slot);
    lemma_tombstones_bounds(bytes, cnt);
    lemma_tombstones_bounds(after, cnt);
    assert(deleted <= tombstones(after, cnt));
    lemma_extents_kept(bytes, after);
    assert(tuples_of(after) =~= tuples_of(bytes).update(
        slot,
        (TupleMetadata { is_deleted }, tuples_of(bytes)[slot].1),
    ));
}

/// What a directory entry is after the byte of one deletion flag changed.
proof fn lemma_update_slot(bytes: Seq<u8>, after: Seq<u8>, slot: int, i: int, is_deleted: bool)
    requires
        layout_ok(bytes),
        0 <= slot < header_of(bytes).tuple_cnt,
        0 <= i < header_of(bytes).tuple_cnt,
        after.len() == bytes.len(),
        forall|k: int| 16 <= k < PAGE_SIZE && k != slot_pos(slot) + 4 ==> after[k] == bytes[k],
        after[slot_pos(slot) + 4] == flag_byte(is_deleted),
    ensures
        slot_of(after, i) == (if i == slot {
            TupleInfo { metadata: TupleMetadata { is_deleted }, ..slot_of(bytes, i) }
        } else {
            slot_of(bytes, i)
        }),
        after[slot_pos(i) + 5] == 0,
{
    lemma_u16_same(after, bytes, slot_pos(i));
    lemma_u16_same(after, bytes, slot_pos(i) + 2);
    assert(slot_of(bytes, i).offset >= 0);
    assert(bytes[slot_pos(i) + 5] == 0);
}

/// Writing the id of the next page into the header of a table page gives a
/// table page with the same slots and payloads.
pub proof fn lemma_set_next(bytes: Seq<u8>, next_page_id: PageId)
    requires
        layout_ok(bytes),
    ensures
        layout_ok(splice(bytes, 0, spec_u32_bytes(next_page_id))),
        header_of(splice(bytes, 0, spec_u32_bytes(next_page_id))) == (TablePageHeader {
            next_page_id,
            ..header_of(bytes)
        }),
        tuples_of(splice(bytes, 0, spec_u32_bytes(next_page_id))) == tuples_of(bytes),
{
    let cnt = header_of(bytes).tuple_cnt as int;
    let after = splice(bytes, 0, spec_u32_bytes(next_page_id));
    lemma_payloads_apart(bytes);
    lemma_limit_monotone(bytes, 0, cnt);
    lemma_bytes_len(0, next_page_id);
    lemma_u32_written(bytes, 0, next_page_id);
    lemma_u32_same(after, bytes, 4);
    lemma_u32_same(after, bytes, 8);
    assert forall|i: int| 0 <= i < cnt implies #[trigger] slot_of(after, i) == slot_of(bytes, i)
        && after[slot_pos(i) + 5] == 0 by {
        assert(same_on(after, bytes, slot_pos(i), slot_pos(i) + 6));
        lemma_slot_same(after, bytes, i);
        assert(bytes[slot_pos(i) + 5] == 0) by {
            assert(slot_of(bytes, i).offset >= 0);
        }
    }
    lemma_tombstones_differ(bytes, after, cnt, -1);
    lemma_extents_kept(bytes, after);
    assert(tuples_of(after) =~= tuples_of(bytes));
}

/// After a tuple was inserted, the page has one more tuple, and the record
/// id of the new slot addresses the tuple and the metadata that were put in.
pub proof fn lemma_insert_then_get(page: TablePageView, meta: TupleMetadata, data: Seq<u8>)
    requires
        page.tuples.len() < u32::MAX,
    ensures
        page.insert(meta, data).tuples.len() == page.tuples.len() + 1,
        page.insert(meta, data).owns(
            RecordId { page_id: page.page_id, slot_id: page.tuples.len() as u32 },
        ),
        page.insert(meta, data).tuples[page.tuples.len() as int] == (meta, data),
        forall|i: int|
            0 <= i < page.tuples.len() ==> page.insert(meta, data).tuples[i] == page.tuples[i],
{
}

} // verus!
