use vstd::prelude::*;
use vstd::string::StringExecFns;
use vstd::slice::slice_subrange;
use crate::error::Error;
use crate::layout::{
    lemma_bytes_len, lemma_u32_same, lemma_u32_written, lemma_zero_bytes, lemma_zero_u32,
    read_u16, read_u32, spec_u32_bytes, splice, write_bytes, write_u16, write_u32,
};
use crate::page_layout::{
    fits, flag_byte, header_bytes, header_of, insert_bytes, layout_ok, lemma_empty_page,
    lemma_init_header, lemma_insert, lemma_limit_monotone, lemma_payloads_apart, lemma_set_next,
    lemma_tombstones_bounds, lemma_update, next_slot, page_view, payload_limit, slot_bytes,
    slot_of, slot_pos, tombstones, update_bytes, TablePageView,
};
use crate::record_id::{record_id_text, RecordId};
use crate::tuple::Tuple;
use crate::typedef::{PageId, INVALID_PAGE_ID, PAGE_SIZE};

verus! {

/// Size in bytes of the page header.
pub const TABLE_PAGE_HEADER_SIZE: usize = 16;

/// Size in bytes of one entry of the slot directory.
pub const TUPLE_INFO_SIZE: usize = 6;

/// What a slot says of its tuple besides where it lies.
#[derive(Clone, Copy, Debug, PartialEq, Eq, Structural)]
pub struct TupleMetadata {
    pub is_deleted: bool,
}

impl TupleMetadata {
    pub fn new(is_deleted: bool) -> (meta: Self)
        ensures
            meta.is_deleted == is_deleted,
    {
        TupleMetadata { is_deleted }
    }

    pub fn is_deleted(&self) -> (deleted: bool)
        ensures
            deleted == self.is_deleted,
    {
        self.is_deleted
    }

    pub fn set_deleted(&mut self, deleted: bool)
        ensures
            final(self).is_deleted == deleted,
    {
        self.is_deleted = deleted;
    }
}

/// One entry of the slot directory: where the tuple's bytes lie in the page,
/// how many they are, and the tuple's metadata.
#[derive(Clone, Copy, Debug, PartialEq, Eq, Structural)]
pub struct TupleInfo {
    pub offset: u16,
    pub size_bytes: u16,
    pub metadata: TupleMetadata,
}

impl TupleInfo {
    pub fn offset(&self) -> (offset: u16)
        ensures
            offset == self.offset,
    {
        self.offset
    }

    pub fn size_bytes(&self) -> (size: u16)
        ensures
            size == self.size_bytes,
    {
        self.size_bytes
    }

    pub fn metadata(&self) -> (metadata: TupleMetadata)
        ensures
            metadata == self.metadata,
    {
        self.metadata
    }
}

/// The fields of the page header.
#[derive(Clone, Copy, Debug, PartialEq, Eq, Structural)]
pub struct TablePageHeader {
    pub next_page_id: PageId,
    pub tuple_cnt: u32,
    pub deleted_tuple_cnt: u32,
}

impl TablePageHeader {
    /// The header of a page without tuples whose successor in the chain is
    /// `next_page_id`.
    pub open spec fn empty(next_page_id: PageId) -> TablePageHeader {
        TablePageHeader { next_page_id, tuple_cnt: 0, deleted_tuple_cnt: 0 }
    }
}

/// A table page: a page-sized block of bytes with a header, a slot directory
/// that grows upwards behind the header, and tuple payloads that grow
/// downwards from the end of the page.
#[derive(Debug, Clone, PartialEq, Eq)]
pub struct TablePage {
    page_id: PageId,
    data: Vec<u8>,
}

impl View for TablePage {
    type V = TablePageView;

    open spec fn view(&self) -> TablePageView {
        page_view(self.spec_page_id(), self.bytes())
    }
}

impl TablePage {
    /// The id of this page.
    pub closed spec fn spec_page_id(&self) -> PageId {
        self.page_id
    }

    /// The bytes of this page.
    pub closed spec fn bytes(&self) -> Seq<u8> {
        self.data@
    }

    /// The page is a page-sized block of bytes. Nothing is said of what the
    /// bytes hold.
    pub open spec fn is_frame(&self) -> bool {
        self.bytes().len() == PAGE_SIZE
    }

    /// The bytes of the page are laid out as a table page.
    pub open spec fn wf(&self) -> bool {
        layout_ok(self.bytes())
    }

    /// A page of zero bytes: an empty table page that ends its chain.
    pub fn new(page_id: PageId) -> (page: Self)
        ensures
            page.wf(),
            page.spec_page_id() == page_id,
            page.bytes() == Seq::new(PAGE_SIZE as nat, |i: int| 0u8),
            page@ == (TablePageView {
                page_id,
                next_page_id: INVALID_PAGE_ID,
                deleted_tuple_cnt: 0,
                tuples: Seq::empty(),
            }),
    {
        let data: Vec<u8> = vec![0u8; PAGE_SIZE];
        proof {
            assert(data@ =~= Seq::new(PAGE_SIZE as nat, |i: int| 0u8));
            lemma_empty_page(data@);
            lemma_zero_u32(data@, 0);
        }
        TablePage { page_id, data }
    }

    /// The page with id `page_id` over the bytes of a frame, whatever they
    /// hold; `None` where `data` is not page-sized.
    pub fn from_frame(page_id: PageId, data: Vec<u8>) -> (page: Option<Self>)
        ensures
            match page {
                Some(p) => data@.len() == PAGE_SIZE && p.spec_page_id() == page_id && p.bytes()
                    == data@,
                None => data@.len() != PAGE_SIZE,
            },
    {
        if data.len() == PAGE_SIZE {
            Some(TablePage { page_id, data })
        } else {
            None
        }
    }

    /// The bytes of the page.
    pub fn data(&self) -> (data: &Vec<u8>)
        ensures
            data@ == self.bytes(),
    {
        &self.data
    }

    pub fn page_id(&self) -> (id: PageId)
        ensures
            id == self.spec_page_id(),
    {
        self.page_id
    }

    pub fn next_page_id(&self) -> (id: PageId)
        requires
            self.is_frame(),
        ensures
            id == self@.next_page_id,
    {
        read_u32(&self.data, 0)
    }

    pub fn tuple_count(&self) -> (count: u32)
        requires
            self.is_frame(),
        ensures
            count == header_of(self.bytes()).tuple_cnt,
            count == self@.tuples.len(),
    {
        read_u32(&self.data, 4)
    }

    /// The header of the page.
    pub fn header(&self) -> (header: TablePageHeader)
        requires
            self.is_frame(),
        ensures
            header == header_of(self.bytes()),
    {
        TablePageHeader {
            next_page_id: read_u32(&self.data, 0),
            tuple_cnt: read_u32(&self.data, 4),
            deleted_tuple_cnt: read_u32(&self.data, 8),
        }
    }

    /// Writes a header for an empty page whose successor in the chain is
    /// `next_page_id`. The bytes behind the header stay as they are.
    pub fn init_header(&mut self, next_page_id: PageId)
        requires
            old(self).is_frame(),
        ensures
            final(self).wf(),
            final(self).spec_page_id() == old(self).spec_page_id(),
            final(self).bytes() == splice(
                old(self).bytes(),
                0,
                header_bytes(TablePageHeader::empty(next_page_id)),
            ),
            final(self)@ == (TablePageView {
                page_id: old(self).spec_page_id(),
                next_page_id,
                deleted_tuple_cnt: 0,
                tuples: Seq::empty(),
            }),
    {
        write_u32(&mut self.data, 0, next_page_id);
        write_u32(&mut self.data, 4, 0);
        write_u32(&mut self.data, 8, 0);
        write_u32(&mut self.data, 12, 0);
        proof {
            lemma_bytes_len(0, next_page_id);
            lemma_zero_bytes();
            assert(self.data@ =~= splice(
                old(self).data@,
                0,
                header_bytes(TablePageHeader::empty(next_page_id)),
            ));
            lemma_init_header(old(self).data@, next_page_id);
        }
    }

    /// Sets the successor of this page in the chain.
    pub fn set_next_page_id(&mut self, next_page_id: PageId)
        requires
            old(self).wf(),
        ensures
            final(self).wf(),
            final(self).bytes() == splice(old(self).bytes(), 0, spec_u32_bytes(next_page_id)),
            final(self)@ == (TablePageView { next_page_id, ..old(self)@ }),
    {
        write_u32(&mut self.data, 0, next_page_id);
        proof {
            lemma_set_next(old(self).data@, next_page_id);
        }
    }

    /// The directory entry of slot `slot_id`.
    pub fn read_slot(&self, slot_id: u32) -> (info: TupleInfo)
        requires
            self.is_frame(),
            slot_pos(slot_id as int) + TUPLE_INFO_SIZE <= PAGE_SIZE,
        ensures
            info == slot_of(self.bytes(), slot_id as int),
    {
        let pos: usize = TABLE_PAGE_HEADER_SIZE + slot_id as usize * TUPLE_INFO_SIZE;
        TupleInfo {
            offset: read_u16(&self.data, pos),
            size_bytes: read_u16(&self.data, pos + 2),
            metadata: TupleMetadata { is_deleted: self.data[pos + 4] != 0 },
        }
    }

    /// The slot directory: one entry for each tuple, in slot order.
    pub fn slot_array(&self) -> (slots: Vec<TupleInfo>)
        requires
            self.is_frame(),
            slot_pos(header_of(self.bytes()).tuple_cnt as int) <= PAGE_SIZE,
        ensures
            slots@ == Seq::new(
                header_of(self.bytes()).tuple_cnt as nat,
                |i: int| slot_of(self.bytes(), i),
            ),
    {
        let count = self.tuple_count();
        let mut slots: Vec<TupleInfo> = Vec::new();
        let mut slot_id: u32 = 0;
        while slot_id < count
            invariant
                self.is_frame(),
                count == header_of(self.bytes()).tuple_cnt,
                slot_pos(count as int) <= PAGE_SIZE,
                slot_id <= count,
                slots@ == Seq::new(slot_id as nat, |i: int| slot_of(self.bytes(), i)),
            decreases count - slot_id,
        {
            slots.push(self.read_slot(slot_id));
            slot_id += 1;
            assert(slots@ =~= Seq::new(slot_id as nat, |i: int| slot_of(self.bytes(), i)));
        }
        slots
    }

    /// Whether `rid` addresses a tuple of this page: `InvalidInput` where it
    /// names another page or a slot that the page does not have.
    pub fn validate_record_id(&self, rid: &RecordId) -> (res: Result<(), Error>)
        requires
            self.is_frame(),
        ensures
            match res {
                Ok(_) => self@.owns(*rid),
                Err(e) => {
                    &&& !self@.owns(*rid)
                    &&& e matches Error::InvalidInput(text) && text@ == record_id_text(*rid)
                },
            },
    {
        if rid.page_id() != self.page_id() || rid.slot_id() >= self.tuple_count() {
            Err(Error::InvalidInput(rid.to_string()))
        } else {
            Ok(())
        }
    }

    /// The metadata and the bytes of the tuple that `rid` addresses, deleted
    /// or not; `InvalidInput` where `rid` addresses no tuple of this page.
    pub fn get_tuple(&self, rid: &RecordId) -> (res: Result<(TupleMetadata, Tuple), Error>)
        requires
            self.wf(),
        ensures
            match res {
                Ok(found) => self@.owns(*rid) && (found.0, found.1@)
                    == self@.tuples[rid.slot_id as int],
                Err(e) => {
                    &&& !self@.owns(*rid)
                    &&& e matches Error::InvalidInput(text) && text@ == record_id_text(*rid)
                },
            },
    {
        match self.validate_record_id(rid) {
            Err(e) => Err(e),
            Ok(_) => {
                proof {
                    lemma_payloads_apart(self.data@);
                }
                let info = self.read_slot(rid.slot_id());
                let start: usize = info.offset as usize;
                let end: usize = start + info.size_bytes as usize;
                let tuple = Tuple::from_slice(slice_subrange(self.data.as_slice(), start, end));
                Ok((info.metadata, tuple))
            },
        }
    }

    /// Where the payload of `tuple` would begin if it were inserted now;
    /// `OutOfSpace` where the page has no room for it and one more directory
    /// entry.
    pub fn get_next_tuple_offset(&self, tuple: &Tuple) -> (res: Result<u16, Error>)
        requires
            self.wf(),
        ensures
            match res {
                Ok(offset) => fits(self.bytes(), tuple@.len()) && offset == next_slot(
                    self.bytes(),
                    TupleMetadata { is_deleted: false },
                    tuple@.len(),
                ).offset && offset + tuple@.len() <= PAGE_SIZE,
                Err(e) => !fits(self.bytes(), tuple@.len()) && e == Error::OutOfSpace,
            },
    {
        let num_tuples = self.tuple_count();
        proof {
            lemma_payloads_apart(self.data@);
            lemma_limit_monotone(self.data@, 0, num_tuples as int);
        }
        let limit: usize = if num_tuples == 0 {
            PAGE_SIZE
        } else {
            self.read_slot(num_tuples - 1).offset as usize
        };
        let size = tuple.tuple_size();
        let directory_end: usize = TABLE_PAGE_HEADER_SIZE + (num_tuples as usize + 1)
            * TUPLE_INFO_SIZE;
        if size > limit || limit - size < directory_end {
            Err(Error::OutOfSpace)
        } else {
            Ok((limit - size) as u16)
        }
    }

    /// Puts `tuple` with metadata `meta` into a new last slot and returns its
    /// record id. Its payload lies right below the payload of the slot
    /// before, or at the end of an empty page. Where the page has no room for
    /// the payload and one more directory entry, nothing changes and the
    /// result is `OutOfSpace`.
    pub fn insert_tuple(&mut self, meta: &TupleMetadata, tuple: &Tuple) -> (res: Result<
        RecordId,
        Error,
    >)
        requires
            old(self).wf(),
        ensures
            final(self).wf(),
            final(self).spec_page_id() == old(self).spec_page_id(),
            match res {
                Ok(rid) => {
                    &&& fits(old(self).bytes(), tuple@.len())
                    &&& rid == (RecordId {
                        page_id: old(self).spec_page_id(),
                        slot_id: old(self)@.tuples.len() as u32,
                    })
                    &&& final(self).bytes() == insert_bytes(old(self).bytes(), *meta, tuple@)
                    &&& final(self)@ == old(self)@.insert(*meta, tuple@)
                },
                Err(e) => {
                    &&& !fits(old(self).bytes(), tuple@.len())
                    &&& e == Error::OutOfSpace
                    &&& final(self).bytes() == old(self).bytes()
                },
            },
    {
        let offset = match self.get_next_tuple_offset(tuple) {
            Ok(offset) => offset,
            Err(e) => {
                return Err(e);
            },
        };
        let slot_id = self.tuple_count();
        let info = TupleInfo {
            offset,
            size_bytes: tuple.tuple_size() as u16,
            metadata: *meta,
        };
        proof {
            lemma_insert(self.data@, *meta, tuple@);
            assert(info == next_slot(self.data@, *meta, tuple@.len()));
        }
        write_u32(&mut self.data, 4, slot_id + 1);
        self.write_slot(slot_id, info);
        write_bytes(&mut self.data, offset as usize, tuple.as_slice());
        Ok(RecordId::new(self.page_id, slot_id))
    }

    /// Writes the directory entry of slot `slot_id`.
    pub fn write_slot(&mut self, slot_id: u32, info: TupleInfo)
        requires
            old(self).is_frame(),
            slot_pos(slot_id as int) + TUPLE_INFO_SIZE <= PAGE_SIZE,
        ensures
            final(self).spec_page_id() == old(self).spec_page_id(),
            final(self).bytes() == splice(
                old(self).bytes(),
                slot_pos(slot_id as int),
                slot_bytes(info),
            ),
    {
        let pos: usize = TABLE_PAGE_HEADER_SIZE + slot_id as usize * TUPLE_INFO_SIZE;
        write_u16(&mut self.data, pos, info.offset);
        write_u16(&mut self.data, pos + 2, info.size_bytes);
        self.data[pos + 4] = if info.metadata.is_deleted {
            1
        } else {
            0
        };
        self.data[pos + 5] = 0;
        proof {
            lemma_bytes_len(info.offset, 0);
            lemma_bytes_len(info.size_bytes, 0);
            assert(self.data@ =~= splice(old(self).data@, pos as int, slot_bytes(info)));
        }
    }

    /// Sets the deletion flag of the tuple that `rid` addresses to that of
    /// `metadata`, and keeps the header's count of deleted tuples: one more
    /// where a live tuple was deleted, one less, but not below zero, where a
    /// deleted one came back. No slot and no payload moves. Where `rid`
    /// addresses no tuple of this page, nothing changes and the result is
    /// `InvalidInput`.
    pub fn update_tuple_metadata(&mut self, rid: &RecordId, metadata: TupleMetadata) -> (res:
        Result<(), Error>)
        requires
            old(self).wf(),
        ensures
            final(self).wf(),
            final(self).spec_page_id() == old(self).spec_page_id(),
            match res {
                Ok(_) => {
                    &&& old(self)@.owns(*rid)
                    &&& final(self).bytes() == update_bytes(
                        old(self).bytes(),
                        rid.slot_id as int,
                        metadata.is_deleted,
                    )
                    &&& final(self)@ == old(self)@.with_metadata(rid.slot_id as int, metadata)
                },
                Err(e) => {
                    &&& !old(self)@.owns(*rid)
                    &&& e matches Error::InvalidInput(text) && text@ == record_id_text(*rid)
                    &&& final(self).bytes() == old(self).bytes()
                },
            },
    {
        match self.validate_record_id(rid) {
            Err(e) => Err(e),
            Ok(_) => {
                let slot_id = rid.slot_id();
                proof {
                    lemma_update(self.data@, slot_id as int, metadata.is_deleted);
                    lemma_tombstones_bounds(self.data@, header_of(self.data@).tuple_cnt as int);
                }
                let was_deleted = self.read_slot(slot_id).metadata.is_deleted;
                let deleted_cnt = read_u32(&self.data, 8);
                let new_cnt: u32 = if !was_deleted && metadata.is_deleted {
                    deleted_cnt + 1
                } else if was_deleted && !metadata.is_deleted && deleted_cnt > 0 {
                    deleted_cnt - 1
                } else {
                    deleted_cnt
                };
                let pos: usize = TABLE_PAGE_HEADER_SIZE + slot_id as usize * TUPLE_INFO_SIZE;
                self.data[pos + 4] = if metadata.is_deleted {
                    1
                } else {
                    0
                };
                assert(self.data@ =~= splice(
                    old(self).data@,
                    slot_pos(slot_id as int) + 4,
                    seq![flag_byte(metadata.is_deleted)],
                ));
                write_u32(&mut self.data, 8, new_cnt);
                Ok(())
            },
        }
    }

    /// Sets the tuple count of the header and nothing else. The result is a
    /// table page only where the directory entries up to the new count
    /// describe one.
    pub fn set_tuple_count(&mut self, tuple_count: u32)
        requires
            old(self).is_frame(),
        ensures
            final(self).spec_page_id() == old(self).spec_page_id(),
            final(self).bytes() == splice(old(self).bytes(), 4, spec_u32_bytes(tuple_count)),
            header_of(final(self).bytes()) == (TablePageHeader {
                tuple_cnt: tuple_count,
                ..header_of(old(self).bytes())
            }),
    {
        write_u32(&mut self.data, 4, tuple_count);
        proof {
            lemma_bytes_len(0, tuple_count);
            lemma_u32_written(old(self).data@, 4, tuple_count);
            lemma_u32_same(self.data@, old(self).data@, 0);
            lemma_u32_same(self.data@, old(self).data@, 8);
        }
    }

    /// Whether the bytes of the page are laid out as a table page.
    pub fn is_valid(&self) -> (ok: bool)
        requires
            self.is_frame(),
        ensures
            ok == self.wf(),
    {
        let header = self.header();
        let count = header.tuple_cnt;
        if count as usize > (PAGE_SIZE - TABLE_PAGE_HEADER_SIZE) / TUPLE_INFO_SIZE {
            return false;
        }
        if self.data[12] != 0 || self.data[13] != 0 || self.data[14] != 0 || self.data[15] != 0 {
            return false;
        }
        let directory_end: usize = TABLE_PAGE_HEADER_SIZE + count as usize * TUPLE_INFO_SIZE;
        let mut limit: usize = PAGE_SIZE;
        let mut deleted: u32 = 0;
        let mut slot_id: u32 = 0;
        while slot_id < count
            invariant
                self.is_frame(),
                header == header_of(self.bytes()),
                count == header.tuple_cnt,
                directory_end == slot_pos(count as int),
                directory_end <= PAGE_SIZE,
                slot_id <= count,
                limit == payload_limit(self.bytes(), slot_id as int),
                deleted == tombstones(self.bytes(), slot_id as int),
                deleted <= slot_id,
                forall|i: int|
                    0 <= i < slot_id ==> {
                        &&& (#[trigger] slot_of(self.bytes(), i)).offset + slot_of(
                            self.bytes(),
                            i,
                        ).size_bytes == payload_limit(self.bytes(), i)
                        &&& slot_of(self.bytes(), i).offset >= slot_pos(count as int)
                        &&& self.bytes()[slot_pos(i) + 5] == 0
                    },
            decreases count - slot_id,
        {
            let info = self.read_slot(slot_id);
            let pos: usize = TABLE_PAGE_HEADER_SIZE + slot_id as usize * TUPLE_INFO_SIZE;
            if info.offset as usize + info.size_bytes as usize != limit
                || (info.offset as usize) < directory_end || self.data[pos + 5] != 0 {
                assert(!(slot_of(self.bytes(), slot_id as int).offset + slot_of(
                    self.bytes(),
                    slot_id as int,
                ).size_bytes == payload_limit(self.bytes(), slot_id as int) && slot_of(
                    self.bytes(),
                    slot_id as int,
                ).offset >= slot_pos(count as int) && self.bytes()[slot_pos(slot_id as int) + 5]
                    == 0));
                return false;
            }
            if info.metadata.is_deleted {
                deleted += 1;
            }
            limit = info.offset as usize;
            slot_id += 1;
        }
        header.deleted_tuple_cnt <= deleted
    }

    /// The table page with id `page_id` that `data` holds; `Io` where `data`
    /// is not page-sized or is not laid out as a table page.
    pub fn from_bytes(page_id: PageId, data: Vec<u8>) -> (res: Result<Self, Error>)
        ensures
            match res {
                Ok(page) => {
                    &&& data@.len() == PAGE_SIZE && layout_ok(data@)
                    &&& page.wf()
                    &&& page.spec_page_id() == page_id
                    &&& page.bytes() == data@
                },
                Err(e) => {
                    &&& !(data@.len() == PAGE_SIZE && layout_ok(data@))
                    &&& e matches Error::Io(text) && text@ == "corrupted table page"@
                },
            },
    {
        match TablePage::from_frame(page_id, data) {
            Some(page) => {
                if page.is_valid() {
                    Ok(page)
                } else {
                    Err(Error::Io(String::from_str("corrupted table page")))
                }
            },
            None => Err(Error::Io(String::from_str("corrupted table page"))),
        }
    }
}

} // verus!
