use mini_rdbms_rs::access::{AccessError, AccessMethod, BufferPoolPageAccessor, HeapAccessMethod};
use mini_rdbms_rs::buffer::LruBufferManager;
use mini_rdbms_rs::disk::{PageId, StorageDiskManager};
use mini_rdbms_rs::page::{PageError, SlottedPageManager};
use mini_rdbms_rs::storage::{StorageEngine, StorageError, StorageResult};
use std::cell::RefCell;
use std::rc::Rc;

/// A byte store in memory that behaves as a file does: writes past the end
/// extend it with zeros, and reads past the end come back short.
#[derive(Clone, Default)]
struct MemoryStorage {
    bytes: Rc<RefCell<Vec<u8>>>,
}

impl StorageEngine for MemoryStorage {
    fn read_exact_at(&self, offset: u64, buf: &mut [u8]) -> StorageResult<()> {
        let bytes = self.bytes.borrow();
        let start = offset as usize;
        let available = bytes.len().saturating_sub(start).min(buf.len());
        if available < buf.len() {
            return Err(StorageError::Unexpected {
                offset,
                expected: buf.len(),
                actual: available,
            });
        }
        buf.copy_from_slice(&bytes[start..start + buf.len()]);
        Ok(())
    }

    fn write_exact_at(&mut self, offset: u64, buf: &[u8]) -> StorageResult<()> {
        if buf.is_empty() {
            return Ok(());
        }
        let mut bytes = self.bytes.borrow_mut();
        let start = offset as usize;
        if bytes.len() < start + buf.len() {
            bytes.resize(start + buf.len(), 0);
        }
        bytes[start..start + buf.len()].copy_from_slice(buf);
        Ok(())
    }

    fn flush(&self) -> StorageResult<()> {
        Ok(())
    }

    fn sync(&self) -> StorageResult<()> {
        Ok(())
    }

    fn len(&self) -> StorageResult<u64> {
        Ok(self.bytes.borrow().len() as u64)
    }

    fn truncate(&mut self, size: u64) -> StorageResult<()> {
        self.bytes.borrow_mut().resize(size as usize, 0);
        Ok(())
    }
}

type TestDiskManager = StorageDiskManager<MemoryStorage>;
type TestBufferManager = LruBufferManager<TestDiskManager>;
type TestAccessMethod =
    HeapAccessMethod<BufferPoolPageAccessor<TestBufferManager>, SlottedPageManager>;

fn create_access_method(
    storage: MemoryStorage,
    page_size: usize,
    capacity: usize,
    page_ids: Vec<PageId>,
) -> TestAccessMethod {
    let disk_manager = StorageDiskManager::with_page_size(storage, page_size)
        .expect("failed to create disk manager");
    let buffer_manager =
        LruBufferManager::new(disk_manager, capacity).expect("failed to create buffer manager");
    let page_accessor = BufferPoolPageAccessor::new(buffer_manager, page_size);

    HeapAccessMethod::with_pages(page_accessor, SlottedPageManager::new(), page_ids)
}

#[test]
fn heap_access_method_round_trip_through_storage_stack() {
    let mut access_method = create_access_method(MemoryStorage::default(), 256, 8, vec![]);

    let record_id = access_method
        .insert(b"hello-from-access-method")
        .expect("failed to insert record");

    let record = access_method
        .read(record_id)
        .expect("failed to read record");
    assert_eq!(record, b"hello-from-access-method");

    access_method
        .delete(record_id)
        .expect("failed to delete record");

    let result = access_method.read(record_id);
    assert!(
        matches!(
            result,
            Err(AccessError::Page(PageError::DeletedSlot { slot_id })) if slot_id == record_id.slot_id()
        ),
        "deleted record should return DeletedSlot error"
    );
}

#[test]
fn heap_access_method_can_read_records_after_reopen() {
    let storage = MemoryStorage::default();
    let page_size = 64;
    let capacity = 2;

    let first_record = vec![1_u8; 20];
    let second_record = vec![2_u8; 20];

    let (first_record_id, second_record_id, page_ids) = {
        let mut access_method = create_access_method(storage.clone(), page_size, capacity, vec![]);

        let first_record_id = access_method
            .insert(&first_record)
            .expect("failed to insert first record");
        let second_record_id = access_method
            .insert(&second_record)
            .expect("failed to insert second record");

        assert_ne!(first_record_id.page_id(), second_record_id.page_id());

        (
            first_record_id,
            second_record_id,
            access_method.page_ids().to_vec(),
        )
    };

    let mut access_method = create_access_method(storage, page_size, capacity, page_ids);

    let first = access_method
        .read(first_record_id)
        .expect("failed to read first record after reopen");
    let second = access_method
        .read(second_record_id)
        .expect("failed to read second record after reopen");

    assert_eq!(first, first_record);
    assert_eq!(second, second_record);
}

#[test]
fn heap_reports_a_listed_page_past_the_end_of_the_disk() {
    let storage = MemoryStorage::default();
    let mut access_method = create_access_method(storage.clone(), 64, 2, vec![]);
    let record_id = access_method.insert(b"abc").expect("failed to insert record");

    // a heap that is told about a page past the end of the file
    let mut other = create_access_method(storage, 64, 2, vec![record_id.page_id(), 9]);
    assert_eq!(other.read(record_id).expect("failed to read record"), b"abc");
    let missing = other.read(mini_rdbms_rs::access::RecordId::new(9, 0));
    assert!(matches!(
        missing,
        Err(AccessError::InvalidAccessPage { page_id: 9, .. })
    ));
}

#[test]
fn heap_fills_a_page_before_allocating_another() {
    let mut access_method = create_access_method(MemoryStorage::default(), 64, 2, vec![]);

    // a 64-byte page has 39 bytes after its header; each record takes 5 more for its slot
    let first = access_method.insert(&[1_u8; 10]).expect("failed to insert first record");
    let second = access_method.insert(&[2_u8; 10]).expect("failed to insert second record");
    let third = access_method.insert(&[3_u8; 10]).expect("failed to insert third record");

    assert_eq!(first.page_id(), 0);
    assert_eq!(second.page_id(), 0);
    assert_eq!((second.slot_id(), third.page_id(), third.slot_id()), (1, 1, 0));
    assert_eq!(access_method.page_ids(), &[0, 1]);
    assert_eq!(access_method.read(second).expect("failed to read"), vec![2_u8; 10]);
}
