use mini_rdbms_rs::buffer::{BufferError, BufferManager, LruBufferManager};
use mini_rdbms_rs::disk::{DiskManager, StorageDiskManager};
use mini_rdbms_rs::storage::{StorageEngine, StorageError, StorageResult};
use std::cell::RefCell;
use std::rc::Rc;

/// A byte store in memory that behaves as a file does: writes past the end
/// extend it with zeros, and reads past the end come back short.
#[derive(Clone, Default)]
struct MemoryStorage {
    bytes: Rc<RefCell<Vec<u8>>>,
}

impl StorageEngine for MemoryStorage {
    fn read_exact_at(&self, offset: u64, buf: &mut [u8]) -> StorageResult<()> {
        let bytes = self.bytes.borrow();
        let start = offset as usize;
        let available = bytes.len().saturating_sub(start).min(buf.len());
        if available < buf.len() {
            return Err(StorageError::Unexpected {
                offset,
                expected: buf.len(),
                actual: available,
            });
        }
        buf.copy_from_slice(&bytes[start..start + buf.len()]);
        Ok(())
    }

    fn write_exact_at(&mut self, offset: u64, buf: &[u8]) -> StorageResult<()> {
        if buf.is_empty() {
            return Ok(());
        }
        let mut bytes = self.bytes.borrow_mut();
        let start = offset as usize;
        if bytes.len() < start + buf.len() {
            bytes.resize(start + buf.len(), 0);
        }
        bytes[start..start + buf.len()].copy_from_slice(buf);
        Ok(())
    }

    fn flush(&self) -> StorageResult<()> {
        Ok(())
    }

    fn sync(&self) -> StorageResult<()> {
        Ok(())
    }

    fn len(&self) -> StorageResult<u64> {
        Ok(self.bytes.borrow().len() as u64)
    }

    fn truncate(&mut self, size: u64) -> StorageResult<()> {
        self.bytes.borrow_mut().resize(size as usize, 0);
        Ok(())
    }
}

type TestDiskManager = StorageDiskManager<MemoryStorage>;

fn create_disk_manager(page_size: usize) -> TestDiskManager {
    StorageDiskManager::with_page_size(MemoryStorage::default(), page_size)
        .expect("failed to create disk manager")
}

fn create_buffer_manager(page_size: usize, capacity: usize) -> LruBufferManager<TestDiskManager> {
    LruBufferManager::new(create_disk_manager(page_size), capacity)
        .expect("failed to create buffer manager")
}

#[test]
fn new_rejects_zero_capacity() {
    let disk_manager = create_disk_manager(128);

    let result = LruBufferManager::new(disk_manager, 0);

    assert!(matches!(result, Err(BufferError::InvalidCapacity)));
}

#[test]
fn new_page_allocates_page_and_caches_it() {
    let mut buffer_manager = create_buffer_manager(128, 2);

    let (page_id, page) = buffer_manager
        .new_page()
        .expect("failed to allocate new page");

    assert_eq!(page_id, 0);
    assert_eq!(page.len(), 128);
    assert_eq!(page, vec![0_u8; 128]);
    assert_eq!(buffer_manager.len(), 1);
    assert_eq!(buffer_manager.capacity(), 2);
    assert!(!buffer_manager.is_empty());
}

#[test]
fn new_page_returns_sequential_page_ids() {
    let mut buffer_manager = create_buffer_manager(128, 3);

    let (page_id_0, _) = buffer_manager
        .new_page()
        .expect("failed to allocate page 0");

    buffer_manager
        .unpin_page(page_id_0, false)
        .expect("failed to unpin page 0");

    let (page_id_1, _) = buffer_manager
        .new_page()
        .expect("failed to allocate page 1");

    buffer_manager
        .unpin_page(page_id_1, false)
        .expect("failed to unpin page 1");

    let (page_id_2, _) = buffer_manager
        .new_page()
        .expect("failed to allocate page 2");

    assert_eq!(page_id_0, 0);
    assert_eq!(page_id_1, 1);
    assert_eq!(page_id_2, 2);
    assert_eq!(buffer_manager.len(), 3);
}

#[test]
fn fetch_page_reads_existing_page_from_disk_and_caches_it() {
    let mut disk_manager = create_disk_manager(128);

    let page_id = disk_manager
        .allocate_page()
        .expect("failed to allocate page");

    let mut expected_page = vec![0_u8; 128];
    expected_page[0..5].copy_from_slice(b"hello");

    disk_manager
        .write_page(page_id, &expected_page)
        .expect("failed to write page directly");

    let mut buffer_manager =
        LruBufferManager::new(disk_manager, 2).expect("failed to create buffer manager");

    let fetched_page = buffer_manager
        .fetch_page(page_id)
        .expect("failed to fetch page");

    assert_eq!(fetched_page, expected_page);
    assert_eq!(buffer_manager.len(), 1);

    buffer_manager
        .unpin_page(page_id, false)
        .expect("failed to unpin page");
}

#[test]
fn update_page_marks_cached_page_as_dirty_and_flush_page_persists_it() {
    let mut buffer_manager = create_buffer_manager(128, 2);

    let (page_id, mut page) = buffer_manager
        .new_page()
        .expect("failed to allocate new page");

    page[0..5].copy_from_slice(b"dirty");

    buffer_manager
        .update_page(page_id, page.clone())
        .expect("failed to update page");

    buffer_manager
        .unpin_page(page_id, true)
        .expect("failed to unpin dirty page");

    buffer_manager
        .flush_page(page_id)
        .expect("failed to flush page");

    let mut read_back = vec![0_u8; 128];

    buffer_manager
        .disk_manager()
        .read_page(page_id, &mut read_back)
        .expect("failed to read page from disk");

    assert_eq!(read_back, page);
}

#[test]
fn flush_all_persists_all_dirty_pages() {
    let mut buffer_manager = create_buffer_manager(128, 3);

    let (page_id_0, mut page_0) = buffer_manager
        .new_page()
        .expect("failed to allocate page 0");

    buffer_manager
        .unpin_page(page_id_0, false)
        .expect("failed to unpin page 0");

    let (page_id_1, mut page_1) = buffer_manager
        .new_page()
        .expect("failed to allocate page 1");

    page_0[0..4].copy_from_slice(b"aaaa");
    page_1[0..4].copy_from_slice(b"bbbb");

    buffer_manager
        .update_page(page_id_0, page_0.clone())
        .expect("failed to update page 0");

    buffer_manager
        .update_page(page_id_1, page_1.clone())
        .expect("failed to update page 1");

    buffer_manager
        .unpin_page(page_id_1, true)
        .expect("failed to unpin page 1");

    buffer_manager
        .flush_all()
        .expect("failed to flush all pages");

    let mut read_page_0 = vec![0_u8; 128];
    let mut read_page_1 = vec![0_u8; 128];

    buffer_manager
        .disk_manager()
        .read_page(page_id_0, &mut read_page_0)
        .expect("failed to read page 0");

    buffer_manager
        .disk_manager()
        .read_page(page_id_1, &mut read_page_1)
        .expect("failed to read page 1");

    assert_eq!(read_page_0, page_0);
    assert_eq!(read_page_1, page_1);
}

#[test]
fn update_page_rejects_invalid_page_size() {
    let mut buffer_manager = create_buffer_manager(128, 2);

    let (page_id, _) = buffer_manager
        .new_page()
        .expect("failed to allocate new page");

    let invalid_page = vec![0_u8; 64];

    let result = buffer_manager.update_page(page_id, invalid_page);

    assert!(matches!(
        result,
        Err(BufferError::InvalidPageSize {
            expected: 128,
            actual: 64,
        })
    ));
}

#[test]
fn unpin_page_rejects_unknown_page() {
    let mut buffer_manager = create_buffer_manager(128, 2);

    let result = buffer_manager.unpin_page(999, false);

    assert!(matches!(
        result,
        Err(BufferError::PageNotFound { page_id: 999 })
    ));
}

#[test]
fn unpin_page_rejects_page_that_is_not_pinned() {
    let mut buffer_manager = create_buffer_manager(128, 2);

    let (page_id, _) = buffer_manager
        .new_page()
        .expect("failed to allocate new page");

    buffer_manager
        .unpin_page(page_id, false)
        .expect("failed to unpin page");

    let result = buffer_manager.unpin_page(page_id, false);

    assert!(matches!(
        result,
        Err(BufferError::PageNotPinned { page_id: actual_page_id })
            if actual_page_id == page_id
    ));
}

#[test]
fn pinned_page_is_not_evicted() {
    let mut buffer_manager = create_buffer_manager(128, 1);

    let (_page_id, _) = buffer_manager
        .new_page()
        .expect("failed to allocate first page");

    let result = buffer_manager.new_page();

    assert!(matches!(result, Err(BufferError::NoEvictablePage)));
}

#[test]
fn evicts_unpinned_page_when_capacity_is_full() {
    let mut buffer_manager = create_buffer_manager(128, 1);

    let (page_id_0, _) = buffer_manager
        .new_page()
        .expect("failed to allocate page 0");

    buffer_manager
        .unpin_page(page_id_0, false)
        .expect("failed to unpin page 0");

    let (page_id_1, _) = buffer_manager
        .new_page()
        .expect("failed to allocate page 1");

    assert_eq!(page_id_0, 0);
    assert_eq!(page_id_1, 1);
    assert_eq!(buffer_manager.len(), 1);

    buffer_manager
        .unpin_page(page_id_1, false)
        .expect("failed to unpin page 1");

    let fetched_page_0 = buffer_manager
        .fetch_page(page_id_0)
        .expect("failed to fetch evicted page 0 again");

    assert_eq!(fetched_page_0, vec![0_u8; 128]);
    assert_eq!(buffer_manager.len(), 1);
}

#[test]
fn dirty_page_is_written_back_before_eviction() {
    let mut buffer_manager = create_buffer_manager(128, 1);

    let (page_id_0, mut page_0) = buffer_manager
        .new_page()
        .expect("failed to allocate page 0");

    page_0[0..5].copy_from_slice(b"evict");

    buffer_manager
        .update_page(page_id_0, page_0.clone())
        .expect("failed to update page 0");

    buffer_manager
        .unpin_page(page_id_0, true)
        .expect("failed to unpin page 0");

    let (page_id_1, _) = buffer_manager
        .new_page()
        .expect("failed to allocate page 1");

    assert_eq!(page_id_1, 1);
    assert_eq!(buffer_manager.len(), 1);

    let mut read_back = vec![0_u8; 128];

    buffer_manager
        .disk_manager()
        .read_page(page_id_0, &mut read_back)
        .expect("failed to read evicted page 0");

    assert_eq!(read_back, page_0);
}

#[test]
fn flush_page_rejects_unknown_page() {
    let mut buffer_manager = create_buffer_manager(128, 2);

    let result = buffer_manager.flush_page(999);

    assert!(matches!(
        result,
        Err(BufferError::PageNotFound { page_id: 999 })
    ));
}

#[test]
fn least_recently_used_unpinned_page_is_evicted_first() {
    let mut buffer_manager = create_buffer_manager(64, 2);

    let (page_id_0, _) = buffer_manager.new_page().expect("failed to allocate page 0");
    let (page_id_1, _) = buffer_manager.new_page().expect("failed to allocate page 1");
    buffer_manager.unpin_page(page_id_0, false).expect("failed to unpin page 0");
    buffer_manager.unpin_page(page_id_1, false).expect("failed to unpin page 1");

    // page 0 becomes the most recently used page
    buffer_manager.fetch_page(page_id_0).expect("failed to fetch page 0");
    buffer_manager.unpin_page(page_id_0, false).expect("failed to unpin page 0");

    let (page_id_2, _) = buffer_manager.new_page().expect("failed to allocate page 2");
    assert_eq!(page_id_2, 2);
    assert_eq!(buffer_manager.len(), 2);

    // page 1 left the pool, so unpinning it reports that it is not resident
    assert!(matches!(
        buffer_manager.unpin_page(page_id_1, false),
        Err(BufferError::PageNotFound { page_id: 1 })
    ));
    assert!(matches!(
        buffer_manager.unpin_page(page_id_0, false),
        Err(BufferError::PageNotPinned { page_id: 0 })
    ));
}

#[test]
fn fetch_of_missing_page_reports_storage_error() {
    let mut buffer_manager = create_buffer_manager(64, 2);

    let result = buffer_manager.fetch_page(5);

    assert!(matches!(
        result,
        Err(BufferError::Storage(StorageError::Unexpected {
            offset: 320,
            expected: 64,
            actual: 0,
        }))
    ));
    assert_eq!(buffer_manager.len(), 0);
    assert!(buffer_manager.is_empty());
}

#[test]
fn buffer_error_messages_describe_the_error() {
    assert_eq!(
        BufferError::InvalidCapacity.message(),
        "buffer pool capacity must be greater than zero"
    );
    assert_eq!(
        BufferError::InvalidPageSize {
            expected: 128,
            actual: 64
        }
        .message(),
        "invalid page size: expected 128 bytes, actual 64 bytes"
    );
    assert_eq!(BufferError::NoEvictablePage.message(), "no evictable page found");
    assert_eq!(
        BufferError::PageNotFound { page_id: 7 }.message(),
        "page not found in buffer pool: page_id=7"
    );
    assert_eq!(
        BufferError::PageNotPinned { page_id: 12 }.message(),
        "page is not pinned: page_id=12"
    );
    assert_eq!(
        BufferError::Storage(StorageError::Unexpected {
            offset: 0,
            expected: 10,
            actual: 3
        })
        .message(),
        "storage error in buffer layer: Unexpected data at offset 0: expected 10 bytes, got 3 bytes"
    );
}

#[test]
fn flush_all_of_clean_pages_writes_nothing_and_succeeds() {
    let mut buffer_manager = create_buffer_manager(128, 2);
    buffer_manager.flush_all().expect("empty pool flushes");

    let (page_id, _) = buffer_manager.new_page().expect("failed to allocate page");
    buffer_manager.flush_all().expect("failed to flush all pages");
    let len_after_first_flush = buffer_manager.disk_manager().storage().len().expect("len");

    // every page is clean now: flushing again succeeds and changes nothing
    buffer_manager.flush_all().expect("clean pool flushes");
    buffer_manager.flush_page(page_id).expect("clean page flushes");
    assert_eq!(
        buffer_manager.disk_manager().storage().len().expect("len"),
        len_after_first_flush
    );
    assert_eq!(buffer_manager.len(), 1);
}

fn buffer_manager_over(storage: &MemoryStorage, page_size: usize, capacity: usize) -> LruBufferManager<TestDiskManager> {
    let disk_manager = StorageDiskManager::with_page_size(storage.clone(), page_size)
        .expect("failed to create disk manager");
    LruBufferManager::new(disk_manager, capacity).expect("failed to create buffer manager")
}

#[test]
fn unpin_with_dirty_flag_makes_flush_write_the_page() {
    let storage = MemoryStorage::default();
    let mut buffer_manager = buffer_manager_over(&storage, 16, 2);
    let (page_id, _) = buffer_manager.new_page().expect("failed to allocate page");
    buffer_manager.flush_page(page_id).expect("failed to flush page");

    // change the disk behind the pool: only a dirty page is written back over it
    storage.bytes.borrow_mut()[0..16].fill(0xff);
    buffer_manager.unpin_page(page_id, false).expect("failed to unpin page");
    buffer_manager.flush_page(page_id).expect("failed to flush clean page");
    assert_eq!(storage.bytes.borrow()[0..16].to_vec(), vec![0xff_u8; 16]);

    buffer_manager.fetch_page(page_id).expect("failed to fetch page");
    buffer_manager.unpin_page(page_id, true).expect("failed to unpin page");
    buffer_manager.flush_page(page_id).expect("failed to flush dirty page");
    assert_eq!(storage.bytes.borrow()[0..16].to_vec(), vec![0_u8; 16]);
}

#[test]
fn a_clean_victim_is_evicted_without_writing() {
    let storage = MemoryStorage::default();
    let mut buffer_manager = buffer_manager_over(&storage, 16, 1);
    let (page_0, _) = buffer_manager.new_page().expect("failed to allocate page 0");
    buffer_manager.flush_page(page_0).expect("failed to flush page 0");
    buffer_manager.unpin_page(page_0, false).expect("failed to unpin page 0");

    storage.bytes.borrow_mut()[0..16].fill(0xab);
    let (page_1, _) = buffer_manager.new_page().expect("failed to allocate page 1");
    assert_eq!(page_1, 1);
    assert_eq!(buffer_manager.len(), 1);
    // page 0 left the pool clean: nothing was written over the disk's bytes
    assert_eq!(storage.bytes.borrow()[0..16].to_vec(), vec![0xab_u8; 16]);

    // page 1 is pinned: the pool is jammed
    assert!(matches!(
        buffer_manager.fetch_page(page_0),
        Err(BufferError::NoEvictablePage)
    ));
    assert_eq!(buffer_manager.len(), 1);
}
