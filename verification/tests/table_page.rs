use bytes::Bytes;
use rustdb_storage::error::Error;
use rustdb_storage::record_id::RecordId;
use rustdb_storage::table_page::{
    TablePage, TablePageHeader, TupleInfo, TupleMetadata, TABLE_PAGE_HEADER_SIZE, TUPLE_INFO_SIZE,
};
use rustdb_storage::table_tuple_iterator::{PageScan, TableTupleIterator};
use rustdb_storage::tuple::Tuple;
use rustdb_storage::typedef::{PageId, INVALID_PAGE_ID, PAGE_SIZE};

/// A pool of frames kept in memory. It hands out fresh pages, takes pages
/// back when their user is done, and hands their bytes out again on a fetch.
struct Pool {
    name: String,
    pool_size: usize,
    frames: Vec<(PageId, Vec<u8>)>,
    next_page_id: PageId,
}

impl Pool {
    fn create_page(&mut self) -> TablePage {
        assert!(self.frames.len() < self.pool_size, "{} is full", self.name);
        let page_id = self.next_page_id;
        self.next_page_id += 1;
        self.frames.push((page_id, vec![0u8; PAGE_SIZE]));
        TablePage::from_frame(page_id, vec![0u8; PAGE_SIZE]).unwrap()
    }

    fn release(&mut self, page: TablePage) {
        for frame in self.frames.iter_mut() {
            if frame.0 == page.page_id() {
                frame.1 = page.data().clone();
            }
        }
    }

    fn frame(&self, page_id: PageId) -> Option<Vec<u8>> {
        for frame in self.frames.iter() {
            if frame.0 == page_id {
                return Some(frame.1.clone());
            }
        }
        None
    }

    fn fetch_page(&self, page_id: PageId) -> Result<TablePage, Error> {
        match self.frame(page_id) {
            Some(bytes) => TablePage::from_bytes(page_id, bytes),
            None => Err(Error::Io(format!("page {} is not in {}", page_id, self.name))),
        }
    }

    fn fetch_frame(&self, page_id: PageId) -> TablePage {
        TablePage::from_frame(page_id, self.frame(page_id).unwrap()).unwrap()
    }
}

fn get_pool_with_pool_size(name: &str, pool_size: usize) -> Pool {
    Pool { name: name.to_string(), pool_size, frames: Vec::new(), next_page_id: 1 }
}

/// A heap of tuples: a chain of table pages in a pool.
struct Heap {
    name: String,
    first_page_id: PageId,
    last_page_id: PageId,
}

impl Heap {
    fn new(name: &str, pool: &mut Pool) -> Heap {
        let mut page = pool.create_page();
        page.init_header(INVALID_PAGE_ID);
        let page_id = page.page_id();
        pool.release(page);
        Heap { name: name.to_string(), first_page_id: page_id, last_page_id: page_id }
    }

    fn insert_tuple(&mut self, pool: &mut Pool, tuple: &Tuple) -> Result<RecordId, Error> {
        let mut page = pool.fetch_page(self.last_page_id)?;
        match page.insert_tuple(&TupleMetadata::new(false), tuple) {
            Ok(rid) => {
                pool.release(page);
                Ok(rid)
            }
            Err(Error::OutOfSpace) => {
                let mut fresh = pool.create_page();
                fresh.init_header(INVALID_PAGE_ID);
                let rid = fresh.insert_tuple(&TupleMetadata::new(false), tuple)?;
                page.set_next_page_id(fresh.page_id());
                self.last_page_id = fresh.page_id();
                pool.release(page);
                pool.release(fresh);
                Ok(rid)
            }
            Err(e) => Err(e),
        }
    }

    fn delete_tuple(&mut self, pool: &mut Pool, rid: &RecordId) -> Result<(), Error> {
        let mut page = pool.fetch_page(rid.page_id())?;
        page.update_tuple_metadata(rid, TupleMetadata::new(true))?;
        pool.release(page);
        Ok(())
    }
}

/// Drives a cursor over the pages of a pool: fetches the page that the
/// cursor asks for, lets the cursor take a step on it, and lets the page go.
fn next_tuple(
    cursor: &mut TableTupleIterator,
    pool: &Pool,
    fetches: &mut usize,
) -> Option<Result<(u64, Tuple), Error>> {
    loop {
        let page_id = cursor.page_to_fetch()?;
        *fetches += 1;
        let page = match pool.fetch_page(page_id) {
            Ok(page) => page,
            Err(e) => return Some(Err(e)),
        };
        match cursor.scan_page(&page) {
            PageScan::Tuple(rid, tuple) => return Some(Ok((rid, tuple))),
            PageScan::Invalid(e) => return Some(Err(e)),
            PageScan::Exhausted => {}
        }
    }
}

fn collect(first_page_id: PageId, pool: &Pool) -> Result<Vec<(u64, Tuple)>, Error> {
    let mut cursor = TableTupleIterator::new(first_page_id);
    let mut fetches = 0;
    let mut tuples = Vec::new();
    while let Some(item) = next_tuple(&mut cursor, pool, &mut fetches) {
        tuples.push(item?);
    }
    Ok(tuples)
}

#[test]
fn test_insert_tuple() {
    let mut pool = get_pool_with_pool_size("test.db", 10);
    let mut table_page = pool.create_page();

    table_page.init_header(1);

    let tuple = Tuple::new(vec![1_u8, 2_u8, 3_u8, 4_u8].into());
    let meta = TupleMetadata::new(false);
    let slot = table_page.insert_tuple(&meta, &tuple).unwrap();

    assert_eq!(1, table_page.tuple_count());
    assert_eq!(1, table_page.next_page_id());

    let rid = RecordId::new(table_page.page_id(), slot.slot_id());
    assert_eq!(tuple.data(), table_page.get_tuple(&rid).unwrap().1.data());

    let (found_meta, found) = table_page.get_tuple(&rid).unwrap();
    assert_eq!(found.data().to_vec(), vec![1_u8, 2_u8, 3_u8, 4_u8]);
    assert_eq!(found_meta, meta);
    assert!(!found_meta.is_deleted());
}

#[test]
fn test_table_page_metadata() {
    let mut pool = get_pool_with_pool_size("test.db", 10);

    let page_id;
    {
        let mut table_page = pool.create_page();

        table_page.init_header(2);

        page_id = table_page.page_id();

        let header = table_page.header();
        assert_eq!(header.next_page_id, 2);
        assert_eq!(header.tuple_cnt, 0);
        assert_eq!(header.deleted_tuple_cnt, 0);

        table_page.set_tuple_count(5);

        let updated_header = table_page.header();
        assert_eq!(updated_header.tuple_cnt, 5);

        let slots = table_page.slot_array();
        assert_eq!(slots.len(), 5);

        let mut slot_0 = slots[0];
        slot_0.offset = 55;
        table_page.write_slot(0, slot_0);
        let mut slot_1 = slots[1];
        slot_1.offset = 11;
        slot_1.metadata.set_deleted(true);
        table_page.write_slot(1, slot_1);
        let slots_mut = table_page.slot_array();
        assert_eq!(slots_mut[0].offset, 55);
        assert_eq!(slots_mut[1].offset, 11);
        assert_eq!(slots_mut[1].metadata.is_deleted(), true);

        table_page.set_tuple_count(3);

        let slots = table_page.slot_array();
        assert_eq!(slots.len(), 3);
        assert_eq!(slots[0].offset, 55);
        assert_eq!(slots[1].offset, 11);
        assert_eq!(slots[1].metadata.is_deleted(), true);

        pool.release(table_page);
    }

    let table_page1 = pool.fetch_frame(page_id);

    assert_eq!(1, table_page1.page_id());
    assert_eq!(2, table_page1.next_page_id());
    assert_eq!(3, table_page1.tuple_count());

    let slots = table_page1.slot_array();
    assert_eq!(slots.len(), 3);
    assert_eq!(slots[0].offset, 55);
    assert_eq!(slots[1].offset, 11);
    assert_eq!(slots[1].metadata.is_deleted(), true);

    // the directory entries that were written by hand describe no table page
    assert!(!table_page1.is_valid());
    assert!(matches!(pool.fetch_page(page_id), Err(Error::Io(_))));
}

#[test]
fn test_insert_and_get_tuple() {
    let mut pool = get_pool_with_pool_size("test.db", 10);

    let page_id;
    let insert_record_id;

    // tuple metadata
    let metadata = TupleMetadata::new(true);

    let tuple_data = vec![1, 2, 3, 1, 2, 3, 4, 5, 6, 7, 8];
    {
        let mut table_page = pool.create_page();

        page_id = table_page.page_id();

        // Initialize page header
        table_page.init_header(2);
        assert_eq!(table_page.header().tuple_cnt, 0);

        let tuple = Tuple::new(tuple_data.clone().into());

        // Insert the tuple
        let record_id = table_page.insert_tuple(&metadata, &tuple).unwrap();
        assert_eq!(table_page.tuple_count(), 1);

        insert_record_id = record_id.clone();

        // Retrieve the tuple
        let (retrieved_meta, retrieved_tuple) = table_page.get_tuple(&record_id).unwrap();

        // Ensure retrieved tuple matches inserted tuple
        assert_eq!(retrieved_meta.is_deleted(), metadata.is_deleted());
        assert_eq!(retrieved_tuple.data(), &tuple_data);

        pool.release(table_page);
    }
    let table_page1 = pool.fetch_page(page_id).unwrap();
    // Retrieve the tuple
    let (retrieved_meta, retrieved_tuple) = table_page1.get_tuple(&insert_record_id).unwrap();

    // Ensure retrieved tuple matches inserted tuple
    assert_eq!(retrieved_meta.is_deleted(), metadata.is_deleted());
    assert_eq!(retrieved_tuple.data(), &tuple_data);
}

/// Test that the iterator correctly visits all non-deleted tuples in the table heap.
#[test]
fn test_table_iterator() {
    let mut pool = get_pool_with_pool_size("test.db", 10);

    let mut table_heap = Heap::new("table", &mut pool);
    assert_eq!(table_heap.name, "table");

    let tuple1 = Tuple::new(vec![1, 2, 3].into());
    let tuple2 = Tuple::new(vec![4, 5, 6].into());
    let tuple3 = Tuple::new(vec![7, 8, 9].into());
    let tuple4 = Tuple::new(vec![10, 11, 12].into());
    let tuple5 = Tuple::new(vec![13, 14, 15].into());

    table_heap.insert_tuple(&mut pool, &tuple1).unwrap();
    table_heap.insert_tuple(&mut pool, &tuple2).unwrap();
    let rid3 = table_heap.insert_tuple(&mut pool, &tuple3).unwrap();
    table_heap.insert_tuple(&mut pool, &tuple4).unwrap();
    table_heap.insert_tuple(&mut pool, &tuple5).unwrap();

    table_heap.delete_tuple(&mut pool, &rid3).unwrap();

    // Collect all tuples from the iterator.
    let tuples: Vec<(u64, Tuple)> = collect(table_heap.first_page_id, &pool).unwrap();
    assert_eq!(tuples.len(), 4);
    assert_eq!(tuples[0].1.data().to_vec(), &[1, 2, 3]);
    assert_eq!(tuples[1].1.data().to_vec(), &[4, 5, 6]);
    assert_eq!(tuples[2].1.data().to_vec(), &[10, 11, 12]);
    assert_eq!(tuples[3].1.data().to_vec(), &[13, 14, 15]);

    let page_id = table_heap.first_page_id;
    assert_eq!(tuples[0].0, RecordId::new(page_id, 0).to_u64());
    assert_eq!(tuples[1].0, RecordId::new(page_id, 1).to_u64());
    assert_eq!(tuples[2].0, RecordId::new(page_id, 3).to_u64());
    assert_eq!(tuples[3].0, RecordId::new(page_id, 4).to_u64());
    assert!(tuples.iter().all(|item| item.0 != rid3.to_u64()));
}

#[test]
fn tuple_holds_the_bytes_it_was_made_of() {
    let tuple = Tuple::new(Bytes::from(vec![9u8, 8, 7]));
    assert_eq!(tuple.tuple_size(), 3);
    assert_eq!(tuple.as_slice(), &[9u8, 8, 7]);
    assert_eq!(tuple.data().to_vec(), vec![9u8, 8, 7]);
    let copy = tuple.clone();
    assert_eq!(copy, tuple);
    assert_eq!(copy.as_slice(), &[9u8, 8, 7]);
    let source = vec![1u8, 2, 3, 4, 5];
    let part = Tuple::from_slice(&source[1..4]);
    assert_eq!(part.tuple_size(), 3);
    assert_eq!(part.as_slice(), &[2u8, 3, 4]);
    let empty = Tuple::from_slice(&[]);
    assert_eq!(empty.tuple_size(), 0);
}

#[test]
fn new_page_is_an_empty_table_page() {
    let page = TablePage::new(4);
    assert_eq!(page.page_id(), 4);
    assert_eq!(page.data().len(), PAGE_SIZE);
    assert!(page.data().iter().all(|b| *b == 0));
    assert!(page.is_valid());
    assert_eq!(page.tuple_count(), 0);
    assert_eq!(page.next_page_id(), INVALID_PAGE_ID);
    assert_eq!(page.slot_array().len(), 0);
}

#[test]
fn from_frame_takes_page_sized_blocks_only() {
    assert!(TablePage::from_frame(1, vec![0u8; PAGE_SIZE]).is_some());
    assert!(TablePage::from_frame(1, vec![0u8; PAGE_SIZE - 1]).is_none());
    assert!(TablePage::from_frame(1, vec![0u8; PAGE_SIZE + 1]).is_none());
    assert!(TablePage::from_frame(1, Vec::new()).is_none());
    let frame = TablePage::from_frame(3, vec![0xabu8; PAGE_SIZE]).unwrap();
    assert_eq!(frame.page_id(), 3);
    assert!(frame.data().iter().all(|b| *b == 0xab));
}

#[test]
fn init_header_writes_sixteen_bytes_low_byte_first() {
    let mut page = TablePage::from_frame(1, vec![0xffu8; PAGE_SIZE]).unwrap();
    assert!(!page.is_valid());
    page.init_header(0x0102_0304);
    assert!(page.is_valid());
    let bytes = page.data();
    assert_eq!(&bytes[0..4], &[0x04u8, 0x03, 0x02, 0x01]);
    assert_eq!(&bytes[4..16], &[0u8; 12]);
    assert!(bytes[16..].iter().all(|b| *b == 0xff));
    assert_eq!(
        page.header(),
        TablePageHeader { next_page_id: 0x0102_0304, tuple_cnt: 0, deleted_tuple_cnt: 0 }
    );
    assert_eq!(TABLE_PAGE_HEADER_SIZE, 16);
    assert_eq!(TUPLE_INFO_SIZE, 6);
}

#[test]
fn insert_lays_out_slot_and_payload() {
    let mut page = TablePage::new(1);
    page.init_header(1);
    let rid = page
        .insert_tuple(&TupleMetadata::new(false), &Tuple::from_slice(&[1, 2, 3, 4]))
        .unwrap();
    assert_eq!(rid, RecordId::new(1, 0));
    let bytes = page.data().clone();
    // header: next page 1, one tuple, none deleted
    assert_eq!(&bytes[0..16], &[1u8, 0, 0, 0, 1, 0, 0, 0, 0, 0, 0, 0, 0, 0, 0, 0]);
    // slot 0: offset 4092 = 0x0ffc, size 4, live
    assert_eq!(&bytes[16..22], &[0xfcu8, 0x0f, 4, 0, 0, 0]);
    assert_eq!(&bytes[4092..4096], &[1u8, 2, 3, 4]);
    assert!(bytes[22..4092].iter().all(|b| *b == 0));

    let rid = page
        .insert_tuple(&TupleMetadata::new(true), &Tuple::from_slice(&[9u8; 300]))
        .unwrap();
    assert_eq!(rid, RecordId::new(1, 1));
    let bytes = page.data().clone();
    assert_eq!(&bytes[4..8], &[2u8, 0, 0, 0]);
    // slot 1: offset 4092 - 300 = 3792 = 0x0ed0, size 300 = 0x012c, deleted
    assert_eq!(&bytes[22..28], &[0xd0u8, 0x0e, 0x2c, 0x01, 1, 0]);
    assert!(bytes[3792..4092].iter().all(|b| *b == 9));
    assert_eq!(&bytes[4092..4096], &[1u8, 2, 3, 4]);

    let slots = page.slot_array();
    assert_eq!(
        slots,
        vec![
            TupleInfo { offset: 4092, size_bytes: 4, metadata: TupleMetadata::new(false) },
            TupleInfo { offset: 3792, size_bytes: 300, metadata: TupleMetadata::new(true) },
        ]
    );
    assert_eq!(slots[1].offset(), 3792);
    assert_eq!(slots[1].size_bytes(), 300);
    assert_eq!(slots[1].metadata(), TupleMetadata::new(true));
    assert_eq!(page.read_slot(0), slots[0]);
}

#[test]
fn insert_then_get_gives_the_tuple_back() {
    let mut page = TablePage::new(8);
    page.init_header(INVALID_PAGE_ID);
    let mut rids = Vec::new();
    for i in 0..20u8 {
        let data = vec![i; i as usize];
        let meta = TupleMetadata::new(i % 3 == 0);
        let before = page.tuple_count();
        let rid = page.insert_tuple(&meta, &Tuple::new(data.clone().into())).unwrap();
        assert_eq!(page.tuple_count(), before + 1);
        assert_eq!(rid, RecordId::new(8, before));
        let (found_meta, found) = page.get_tuple(&rid).unwrap();
        assert_eq!(found_meta, meta);
        assert_eq!(found.as_slice(), &data[..]);
        rids.push((rid, meta, data));
    }
    // nothing that was put in earlier has moved
    for (rid, meta, data) in rids {
        let (found_meta, found) = page.get_tuple(&rid).unwrap();
        assert_eq!(found_meta, meta);
        assert_eq!(found.as_slice(), &data[..]);
    }
    assert!(page.is_valid());
}

#[test]
fn directory_stays_below_the_payloads() {
    let mut page = TablePage::new(1);
    page.init_header(INVALID_PAGE_ID);
    let mut size = 1usize;
    while page
        .insert_tuple(&TupleMetadata::new(false), &Tuple::new(vec![7u8; size].into()))
        .is_ok()
    {
        let slots = page.slot_array();
        let directory_end = TABLE_PAGE_HEADER_SIZE + slots.len() * TUPLE_INFO_SIZE;
        let mut limit = PAGE_SIZE;
        for slot in slots.iter() {
            assert!(directory_end <= slot.offset() as usize);
            assert_eq!(slot.offset() as usize + slot.size_bytes() as usize, limit);
            limit = slot.offset() as usize;
        }
        assert!(page.is_valid());
        size = (size * 7 + 3) % 97;
    }
    assert!(page.tuple_count() > 10);
    assert!(page.is_valid());
}

#[test]
fn insert_fails_where_the_tuple_does_not_fit() {
    let mut page = TablePage::new(1);
    page.init_header(INVALID_PAGE_ID);
    // an empty page has room for 4096 - 16 - 6 bytes
    let too_large = Tuple::new(vec![0u8; 4075].into());
    let before = page.data().clone();
    assert_eq!(
        page.insert_tuple(&TupleMetadata::new(false), &too_large),
        Err(Error::OutOfSpace)
    );
    assert_eq!(page.data(), &before);
    assert_eq!(page.get_next_tuple_offset(&too_large), Err(Error::OutOfSpace));
    let huge = Tuple::new(vec![0u8; 70000].into());
    assert_eq!(page.insert_tuple(&TupleMetadata::new(false), &huge), Err(Error::OutOfSpace));

    let largest = Tuple::new(vec![5u8; 4074].into());
    assert_eq!(page.get_next_tuple_offset(&largest), Ok(22));
    assert_eq!(
        page.insert_tuple(&TupleMetadata::new(false), &largest),
        Ok(RecordId::new(1, 0))
    );
    assert_eq!(page.read_slot(0).offset(), 22);
    // the page is full: not even an empty tuple has room for its slot
    let empty = Tuple::from_slice(&[]);
    assert_eq!(page.insert_tuple(&TupleMetadata::new(false), &empty), Err(Error::OutOfSpace));
    assert_eq!(page.tuple_count(), 1);
    assert!(page.is_valid());
}

#[test]
fn empty_tuples_take_a_slot_each() {
    let mut page = TablePage::new(1);
    page.init_header(INVALID_PAGE_ID);
    let empty = Tuple::from_slice(&[]);
    let mut count = 0u32;
    while page.insert_tuple(&TupleMetadata::new(false), &empty).is_ok() {
        count += 1;
    }
    // 16 + 680 * 6 = 4096
    assert_eq!(count, 680);
    assert_eq!(page.tuple_count(), 680);
    assert!(page.is_valid());
    let (_, found) = page.get_tuple(&RecordId::new(1, 679)).unwrap();
    assert_eq!(found.tuple_size(), 0);
}

#[test]
fn get_tuple_rejects_a_record_id_of_another_page_or_slot() {
    let mut page = TablePage::new(2);
    page.init_header(INVALID_PAGE_ID);
    page.insert_tuple(&TupleMetadata::new(false), &Tuple::from_slice(&[1])).unwrap();
    assert_eq!(
        page.get_tuple(&RecordId::new(3, 0)).unwrap_err(),
        Error::InvalidInput("3:0".to_string())
    );
    assert_eq!(
        page.get_tuple(&RecordId::new(2, 1)).unwrap_err(),
        Error::InvalidInput("2:1".to_string())
    );
    assert_eq!(
        page.validate_record_id(&RecordId::new(2, 7)),
        Err(Error::InvalidInput("2:7".to_string()))
    );
    assert_eq!(page.validate_record_id(&RecordId::new(2, 0)), Ok(()));
    let before = page.data().clone();
    assert_eq!(
        page.update_tuple_metadata(&RecordId::new(2, 1), TupleMetadata::new(true)),
        Err(Error::InvalidInput("2:1".to_string()))
    );
    assert_eq!(
        page.update_tuple_metadata(&RecordId::new(1, 0), TupleMetadata::new(true)),
        Err(Error::InvalidInput("1:0".to_string()))
    );
    assert_eq!(page.data(), &before);
}

#[test]
fn get_tuple_does_not_filter_deleted_tuples() {
    let mut page = TablePage::new(2);
    page.init_header(INVALID_PAGE_ID);
    let rid = page.insert_tuple(&TupleMetadata::new(true), &Tuple::from_slice(&[4, 2])).unwrap();
    let (meta, tuple) = page.get_tuple(&rid).unwrap();
    assert!(meta.is_deleted());
    assert_eq!(tuple.as_slice(), &[4u8, 2]);
}

#[test]
fn update_metadata_writes_the_flag_and_keeps_the_count() {
    let mut page = TablePage::new(1);
    page.init_header(INVALID_PAGE_ID);
    let a = page.insert_tuple(&TupleMetadata::new(false), &Tuple::from_slice(&[1, 1])).unwrap();
    let b = page.insert_tuple(&TupleMetadata::new(false), &Tuple::from_slice(&[2, 2])).unwrap();
    let c = page.insert_tuple(&TupleMetadata::new(true), &Tuple::from_slice(&[3, 3])).unwrap();
    // inserting a deleted tuple does not count as a deletion
    assert_eq!(page.header().deleted_tuple_cnt, 0);

    let before = page.data().clone();
    assert_eq!(page.update_tuple_metadata(&b, TupleMetadata::new(true)), Ok(()));
    assert_eq!(page.header().deleted_tuple_cnt, 1);
    assert!(page.get_tuple(&b).unwrap().0.is_deleted());
    assert_eq!(page.get_tuple(&b).unwrap().1.as_slice(), &[2u8, 2]);
    // only the flag of slot 1 and the count in the header have changed
    let after = page.data().clone();
    for i in 0..PAGE_SIZE {
        if i == 16 + 6 + 4 {
            assert_eq!((before[i], after[i]), (0, 1));
        } else if i == 8 {
            assert_eq!((before[i], after[i]), (0, 1));
        } else {
            assert_eq!(before[i], after[i]);
        }
    }

    // deleting again changes nothing
    assert_eq!(page.update_tuple_metadata(&b, TupleMetadata::new(true)), Ok(()));
    assert_eq!(page.header().deleted_tuple_cnt, 1);
    assert_eq!(page.data(), &after);

    assert_eq!(page.update_tuple_metadata(&a, TupleMetadata::new(true)), Ok(()));
    assert_eq!(page.header().deleted_tuple_cnt, 2);

    // bringing tuples back counts down, but not below zero
    assert_eq!(page.update_tuple_metadata(&a, TupleMetadata::new(false)), Ok(()));
    assert_eq!(page.header().deleted_tuple_cnt, 1);
    assert!(!page.get_tuple(&a).unwrap().0.is_deleted());
    assert_eq!(page.update_tuple_metadata(&b, TupleMetadata::new(false)), Ok(()));
    assert_eq!(page.header().deleted_tuple_cnt, 0);
    assert_eq!(page.update_tuple_metadata(&c, TupleMetadata::new(false)), Ok(()));
    assert_eq!(page.header().deleted_tuple_cnt, 0);
    assert!(!page.get_tuple(&c).unwrap().0.is_deleted());
    assert_eq!(page.tuple_count(), 3);
    assert!(page.is_valid());
}

#[test]
fn metadata_flag_can_be_set_and_read() {
    let mut meta = TupleMetadata::new(false);
    assert!(!meta.is_deleted());
    meta.set_deleted(true);
    assert!(meta.is_deleted());
    assert_eq!(meta, TupleMetadata::new(true));
    meta.set_deleted(false);
    assert_eq!(meta, TupleMetadata::new(false));
}

#[test]
fn set_next_page_id_changes_the_link_only() {
    let mut page = TablePage::new(1);
    page.init_header(INVALID_PAGE_ID);
    let rid = page.insert_tuple(&TupleMetadata::new(false), &Tuple::from_slice(&[6, 6, 6])).unwrap();
    let before = page.data().clone();
    page.set_next_page_id(0x0a0b);
    assert_eq!(page.next_page_id(), 0x0a0b);
    assert_eq!(&page.data()[0..4], &[0x0bu8, 0x0a, 0, 0]);
    assert_eq!(&page.data()[4..], &before[4..]);
    assert_eq!(page.tuple_count(), 1);
    assert_eq!(page.get_tuple(&rid).unwrap().1.as_slice(), &[6u8, 6, 6]);
    assert!(page.is_valid());
}

#[test]
fn page_survives_a_round_trip_through_its_bytes() {
    let mut page = TablePage::new(5);
    page.init_header(6);
    let a = page.insert_tuple(&TupleMetadata::new(false), &Tuple::from_slice(&[1, 2, 3, 4])).unwrap();
    let b = page.insert_tuple(&TupleMetadata::new(false), &Tuple::from_slice(&[5, 6])).unwrap();
    page.update_tuple_metadata(&a, TupleMetadata::new(true)).unwrap();

    let again = TablePage::from_bytes(5, page.data().clone()).unwrap();
    assert_eq!(again, page);
    assert_eq!(again.header(), page.header());
    assert_eq!(again.header().deleted_tuple_cnt, 1);
    assert_eq!(again.slot_array(), page.slot_array());
    let (meta, tuple) = again.get_tuple(&a).unwrap();
    assert!(meta.is_deleted());
    assert_eq!(tuple.as_slice(), &[1u8, 2, 3, 4]);
    let (meta, tuple) = again.get_tuple(&b).unwrap();
    assert!(!meta.is_deleted());
    assert_eq!(tuple.as_slice(), &[5u8, 6]);
}

#[test]
fn from_bytes_rejects_what_is_no_table_page() {
    let io = Error::Io("corrupted table page".to_string());
    assert_eq!(TablePage::from_bytes(1, vec![0u8; 100]).unwrap_err(), io);
    assert_eq!(TablePage::from_bytes(1, vec![0xffu8; PAGE_SIZE]).unwrap_err(), io);

    let mut page = TablePage::new(1);
    page.init_header(INVALID_PAGE_ID);
    page.insert_tuple(&TupleMetadata::new(false), &Tuple::from_slice(&[1, 2, 3])).unwrap();
    page.insert_tuple(&TupleMetadata::new(false), &Tuple::from_slice(&[4, 5])).unwrap();
    let good = page.data().clone();
    assert!(TablePage::from_bytes(1, good.clone()).is_ok());

    // a tuple count that the directory cannot hold
    let mut bad = good.clone();
    bad[4] = 0xa9;
    bad[5] = 0x02;
    assert_eq!(TablePage::from_bytes(1, bad).unwrap_err(), io);
    // a reserved byte of the header that is not zero
    let mut bad = good.clone();
    bad[13] = 1;
    assert_eq!(TablePage::from_bytes(1, bad).unwrap_err(), io);
    // a payload that does not end where the one before begins
    let mut bad = good.clone();
    bad[22] = bad[22].wrapping_sub(1);
    assert_eq!(TablePage::from_bytes(1, bad).unwrap_err(), io);
    // a payload that begins inside the directory
    let mut bad = good.clone();
    bad[16] = 20;
    bad[17] = 0;
    assert_eq!(TablePage::from_bytes(1, bad).unwrap_err(), io);
    // a reserved byte of a slot that is not zero
    let mut bad = good.clone();
    bad[21] = 1;
    assert_eq!(TablePage::from_bytes(1, bad).unwrap_err(), io);
    // more deleted tuples in the header than slots with the flag
    let mut bad = good.clone();
    bad[8] = 1;
    assert_eq!(TablePage::from_bytes(1, bad).unwrap_err(), io);
    // a flag byte other than one counts as set
    let mut odd = good.clone();
    odd[20] = 2;
    odd[8] = 1;
    let page = TablePage::from_bytes(1, odd).unwrap();
    assert!(page.get_tuple(&RecordId::new(1, 0)).unwrap().0.is_deleted());
}

#[test]
fn iterator_starts_at_the_first_page() {
    let cursor = TableTupleIterator::new(3);
    assert_eq!(cursor.current_page_id(), 3);
    assert_eq!(cursor.current_slot(), 0);
    assert_eq!(cursor.page_to_fetch(), Some(3));
    let done = TableTupleIterator::new(INVALID_PAGE_ID);
    assert_eq!(done.page_to_fetch(), None);
}

#[test]
fn iterator_of_an_empty_heap_yields_nothing() {
    let mut pool = get_pool_with_pool_size("empty", 4);
    let heap = Heap::new("none", &mut pool);
    assert_eq!(collect(heap.first_page_id, &pool).unwrap().len(), 0);
    assert_eq!(collect(INVALID_PAGE_ID, &pool).unwrap().len(), 0);
}

#[test]
fn iterator_follows_the_page_chain() {
    let mut pool = get_pool_with_pool_size("chain", 4);
    let mut first = pool.create_page();
    let mut second = pool.create_page();
    first.init_header(second.page_id());
    second.init_header(INVALID_PAGE_ID);
    let a = first.insert_tuple(&TupleMetadata::new(false), &Tuple::from_slice(b"A")).unwrap();
    let b = first.insert_tuple(&TupleMetadata::new(false), &Tuple::from_slice(b"B")).unwrap();
    let c = second.insert_tuple(&TupleMetadata::new(false), &Tuple::from_slice(b"C")).unwrap();
    let first_page_id = first.page_id();
    pool.release(first);
    pool.release(second);

    let mut cursor = TableTupleIterator::new(first_page_id);
    let mut fetches = 0;
    let item = next_tuple(&mut cursor, &pool, &mut fetches).unwrap().unwrap();
    assert_eq!((item.0, item.1.as_slice()), (a.to_u64(), &b"A"[..]));
    let item = next_tuple(&mut cursor, &pool, &mut fetches).unwrap().unwrap();
    assert_eq!((item.0, item.1.as_slice()), (b.to_u64(), &b"B"[..]));
    let item = next_tuple(&mut cursor, &pool, &mut fetches).unwrap().unwrap();
    assert_eq!((item.0, item.1.as_slice()), (c.to_u64(), &b"C"[..]));
    assert_eq!(fetches, 4);
    assert!(next_tuple(&mut cursor, &pool, &mut fetches).is_none());
    // the last step read the end of the chain from the second page
    assert_eq!(fetches, 5);
    assert_eq!(cursor.page_to_fetch(), None);
    assert!(next_tuple(&mut cursor, &pool, &mut fetches).is_none());
    assert!(next_tuple(&mut cursor, &pool, &mut fetches).is_none());
    // and from then on no page is fetched
    assert_eq!(fetches, 5);
}

#[test]
fn iterator_visits_every_page_of_a_grown_heap() {
    let mut pool = get_pool_with_pool_size("grown", 10);
    let mut heap = Heap::new("wide", &mut pool);
    let mut expected = Vec::new();
    let mut deleted = Vec::new();
    for i in 0..40u8 {
        let data = vec![i; 500];
        let rid = heap.insert_tuple(&mut pool, &Tuple::new(data.clone().into())).unwrap();
        if i % 4 == 1 {
            deleted.push(rid);
        } else {
            expected.push((rid.to_u64(), data));
        }
    }
    for rid in deleted.iter() {
        heap.delete_tuple(&mut pool, rid).unwrap();
    }
    assert!(heap.last_page_id > heap.first_page_id);
    let found = collect(heap.first_page_id, &pool).unwrap();
    assert_eq!(found.len(), 30);
    let found: Vec<(u64, Vec<u8>)> =
        found.iter().map(|item| (item.0, item.1.as_slice().to_vec())).collect();
    assert_eq!(found, expected);
}

#[test]
fn iterator_surfaces_a_failed_fetch_and_can_go_on() {
    let mut pool = get_pool_with_pool_size("short", 4);
    let mut page = pool.create_page();
    page.init_header(INVALID_PAGE_ID);
    page.insert_tuple(&TupleMetadata::new(false), &Tuple::from_slice(&[1])).unwrap();
    let page_id = page.page_id();

    let mut cursor = TableTupleIterator::new(page_id + 1);
    let mut fetches = 0;
    assert!(matches!(next_tuple(&mut cursor, &pool, &mut fetches), Some(Err(Error::Io(_)))));
    // the cursor has not moved
    assert_eq!(cursor.page_to_fetch(), Some(page_id + 1));
    assert_eq!(cursor.current_slot(), 0);

    pool.release(page);
    let mut cursor = TableTupleIterator::new(page_id);
    let item = next_tuple(&mut cursor, &pool, &mut fetches).unwrap().unwrap();
    assert_eq!(item.1.as_slice(), &[1u8]);
}

#[test]
fn scan_of_another_page_than_the_cursor_stands_on_is_invalid() {
    let mut page = TablePage::new(2);
    page.init_header(9);
    page.insert_tuple(&TupleMetadata::new(false), &Tuple::from_slice(&[1])).unwrap();
    let mut cursor = TableTupleIterator::new(5);
    match cursor.scan_page(&page) {
        PageScan::Invalid(e) => assert_eq!(e, Error::InvalidInput("5:0".to_string())),
        other => panic!("{:?}", other),
    }
    assert_eq!(cursor.current_page_id(), 5);
    assert_eq!(cursor.current_slot(), 1);
    // no slot is left ahead: the cursor follows the link of the page it was given
    assert!(matches!(cursor.scan_page(&page), PageScan::Exhausted));
    assert_eq!(cursor.current_page_id(), 9);
    assert_eq!(cursor.current_slot(), 0);
}

#[test]
fn scan_page_steps_over_deleted_tuples() {
    let mut page = TablePage::new(3);
    page.init_header(INVALID_PAGE_ID);
    for i in 0..6u8 {
        page.insert_tuple(&TupleMetadata::new(i != 2 && i != 5), &Tuple::from_slice(&[i])).unwrap();
    }
    let mut cursor = TableTupleIterator::new(3);
    match cursor.scan_page(&page) {
        PageScan::Tuple(rid, tuple) => {
            assert_eq!(rid, (3u64 << 32) | 2);
            assert_eq!(tuple.as_slice(), &[2u8]);
        }
        other => panic!("{:?}", other),
    }
    assert_eq!((cursor.current_page_id(), cursor.current_slot()), (3, 3));
    match cursor.scan_page(&page) {
        PageScan::Tuple(rid, tuple) => {
            assert_eq!(RecordId::from_u64(rid), RecordId::new(3, 5));
            assert_eq!(tuple.as_slice(), &[5u8]);
        }
        other => panic!("{:?}", other),
    }
    assert_eq!((cursor.current_page_id(), cursor.current_slot()), (3, 6));
    assert!(matches!(cursor.scan_page(&page), PageScan::Exhausted));
    assert_eq!(cursor.page_to_fetch(), None);
    assert_eq!(cursor.current_slot(), 0);
}
