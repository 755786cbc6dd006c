use mini_rdbms_rs::disk::{DEFAULT_PAGE_SIZE, DiskManager, StorageDiskManager};
use mini_rdbms_rs::storage::{
    read_progress, transfer_position, write_progress, StorageEngine, StorageError, StorageResult,
};
use mini_rdbms_rs::text::decimal_string;
use std::cell::RefCell;
use std::rc::Rc;

#[derive(Clone, Default)]
struct MemoryStorage {
    bytes: Rc<RefCell<Vec<u8>>>,
}

impl StorageEngine for MemoryStorage {
    fn read_exact_at(&self, offset: u64, buf: &mut [u8]) -> StorageResult<()> {
        let bytes = self.bytes.borrow();
        let start = offset as usize;
        let available = bytes.len().saturating_sub(start).min(buf.len());
        if available < buf.len() {
            return Err(StorageError::Unexpected {
                offset,
                expected: buf.len(),
                actual: available,
            });
        }
        buf.copy_from_slice(&bytes[start..start + buf.len()]);
        Ok(())
    }

    fn write_exact_at(&mut self, offset: u64, buf: &[u8]) -> StorageResult<()> {
        if buf.is_empty() {
            return Ok(());
        }
        let mut bytes = self.bytes.borrow_mut();
        let start = offset as usize;
        if bytes.len() < start + buf.len() {
            bytes.resize(start + buf.len(), 0);
        }
        bytes[start..start + buf.len()].copy_from_slice(buf);
        Ok(())
    }

    fn flush(&self) -> StorageResult<()> {
        Ok(())
    }

    fn sync(&self) -> StorageResult<()> {
        Ok(())
    }

    fn len(&self) -> StorageResult<u64> {
        Ok(self.bytes.borrow().len() as u64)
    }

    fn truncate(&mut self, size: u64) -> StorageResult<()> {
        self.bytes.borrow_mut().resize(size as usize, 0);
        Ok(())
    }
}

fn invalid_argument(result: StorageResult<impl std::fmt::Debug>) -> String {
    match result {
        Err(StorageError::InvalidArgument { message }) => message,
        other => panic!("expected InvalidArgument, got {:?}", other),
    }
}

#[test]
fn with_page_size_refuses_zero() {
    let result = StorageDiskManager::with_page_size(MemoryStorage::default(), 0);
    assert_eq!(
        invalid_argument(result.map(|_| ())),
        "page_size must be greater than 0"
    );
}

#[test]
fn new_uses_the_default_page_size() {
    let disk_manager = StorageDiskManager::new(MemoryStorage::default());
    assert_eq!(disk_manager.page_size(), DEFAULT_PAGE_SIZE);
    assert_eq!(disk_manager.page_count().expect("page count"), 0);
}

#[test]
fn allocated_pages_are_sequential_and_zeroed() {
    let mut disk_manager =
        StorageDiskManager::with_page_size(MemoryStorage::default(), 16).expect("disk manager");

    assert_eq!(disk_manager.allocate_page().expect("page 0"), 0);
    assert_eq!(disk_manager.allocate_page().expect("page 1"), 1);
    assert_eq!(disk_manager.page_count().expect("page count"), 2);
    assert_eq!(disk_manager.storage().len().expect("len"), 32);

    let mut buf = vec![9_u8; 16];
    disk_manager.read_page(1, &mut buf).expect("read page 1");
    assert_eq!(buf, vec![0_u8; 16]);
}

#[test]
fn written_page_reads_back_and_leaves_other_pages() {
    let mut disk_manager =
        StorageDiskManager::with_page_size(MemoryStorage::default(), 8).expect("disk manager");
    disk_manager.allocate_page().expect("page 0");
    disk_manager.write_page(0, b"abcdefgh").expect("write page 0");

    // writing past the end fills the gap with zeros
    disk_manager.write_page(2, b"ABCDEFGH").expect("write page 2");
    assert_eq!(disk_manager.page_count().expect("page count"), 3);

    let mut buf = vec![0_u8; 8];
    disk_manager.read_page(0, &mut buf).expect("read page 0");
    assert_eq!(buf, b"abcdefgh");
    disk_manager.read_page(1, &mut buf).expect("read page 1");
    assert_eq!(buf, vec![0_u8; 8]);
    disk_manager.read_page(2, &mut buf).expect("read page 2");
    assert_eq!(buf, b"ABCDEFGH");
    assert_eq!(disk_manager.allocate_page().expect("page 3"), 3);
}

#[test]
fn page_buffers_must_be_one_page_long() {
    let mut disk_manager =
        StorageDiskManager::with_page_size(MemoryStorage::default(), 128).expect("disk manager");
    let mut short = vec![0_u8; 64];

    assert_eq!(
        invalid_argument(disk_manager.read_page(0, &mut short)),
        "page buffer size mismatch: expected 128, actual 64"
    );
    assert_eq!(
        invalid_argument(disk_manager.write_page(0, &short)),
        "page buffer size mismatch: expected 128, actual 64"
    );
}

#[test]
fn page_offsets_that_overflow_are_refused() {
    let disk_manager =
        StorageDiskManager::with_page_size(MemoryStorage::default(), 128).expect("disk manager");
    let mut buf = vec![0_u8; 128];

    assert_eq!(
        invalid_argument(disk_manager.read_page(u64::MAX, &mut buf)),
        "page offset overflow: page_id=18446744073709551615, page_size=128"
    );
}

#[test]
fn unaligned_storage_is_refused() {
    let mut storage = MemoryStorage::default();
    storage.write_exact_at(0, b"hello").expect("write");
    let mut disk_manager = StorageDiskManager::with_page_size(storage, 128).expect("disk manager");

    assert_eq!(
        invalid_argument(disk_manager.allocate_page()),
        "storage length is not page aligned: len=5, page_size=128"
    );
    assert_eq!(
        invalid_argument(disk_manager.page_count()),
        "storage length is not page aligned: len=5, page_size=128"
    );
    assert!(disk_manager.flush().is_ok());
    assert!(disk_manager.sync().is_ok());
}

#[test]
fn missing_page_read_is_a_short_read() {
    let disk_manager =
        StorageDiskManager::with_page_size(MemoryStorage::default(), 16).expect("disk manager");
    let mut buf = vec![0_u8; 16];

    assert!(matches!(
        disk_manager.read_page(3, &mut buf),
        Err(StorageError::Unexpected {
            offset: 48,
            expected: 16,
            actual: 0
        })
    ));
}

#[test]
fn transfer_progress_counts_bytes_and_stops_on_zero() {
    assert_eq!(transfer_position(100, 5), 105);
    assert_eq!(read_progress(0, 10, 0, 3).expect("progress"), 3);
    assert!(matches!(
        read_progress(0, 10, 3, 0),
        Err(StorageError::Unexpected {
            offset: 0,
            expected: 10,
            actual: 3
        })
    ));
    assert_eq!(write_progress(100, 8, 2, 6).expect("progress"), 8);
    assert!(matches!(
        write_progress(100, 8, 2, 0),
        Err(StorageError::Unexpected {
            offset: 102,
            expected: 6,
            actual: 2
        })
    ));
}

#[test]
fn storage_error_messages_describe_the_error() {
    assert_eq!(
        StorageError::Unexpected {
            offset: 100,
            expected: 1,
            actual: 0
        }
        .message(),
        "Unexpected data at offset 100: expected 1 bytes, got 0 bytes"
    );
    assert_eq!(
        StorageError::InvalidArgument {
            message: "bad".to_string()
        }
        .message(),
        "Invalid argument: bad"
    );
    let io = StorageError::from(std::io::Error::new(std::io::ErrorKind::Other, "disk on fire"));
    assert_eq!(io.message(), "Storage I/O error: disk on fire");
}

#[test]
fn decimal_strings_match_display() {
    for n in [0_u64, 7, 10, 99, 1000, 65535, u64::MAX] {
        assert_eq!(decimal_string(n), n.to_string());
    }
}

#[test]
fn page_arithmetic_on_a_storage_length() {
    let disk_manager =
        StorageDiskManager::with_page_size(MemoryStorage::default(), 128).expect("disk manager");

    assert_eq!(disk_manager.pages_in_len(0).expect("pages"), 0);
    assert_eq!(disk_manager.pages_in_len(384).expect("pages"), 3);
    assert_eq!(
        invalid_argument(disk_manager.pages_in_len(130)),
        "storage length is not page aligned: len=130, page_size=128"
    );

    assert_eq!(disk_manager.allocation_for_len(256).expect("allocation"), (2, 384));
    assert_eq!(
        invalid_argument(disk_manager.allocation_for_len(1)),
        "storage length is not page aligned: len=1, page_size=128"
    );
    let last = u64::MAX - 127;
    assert_eq!(
        invalid_argument(disk_manager.allocation_for_len(last)),
        format!("storage length overflow: len={}, page_size=128", last)
    );
}

#[test]
fn refused_page_operations_touch_nothing() {
    let mut disk_manager =
        StorageDiskManager::with_page_size(MemoryStorage::default(), 8).expect("disk manager");
    disk_manager.write_page(0, b"abcdefgh").expect("write page 0");

    let mut short = vec![7_u8; 4];
    assert!(disk_manager.read_page(0, &mut short).is_err());
    assert_eq!(short, vec![7_u8; 4]);

    assert!(disk_manager.write_page(0, b"xyz").is_err());
    let mut buf = vec![0_u8; 8];
    assert!(disk_manager.write_page(u64::MAX, b"ABCDEFGH").is_err());
    assert!(disk_manager.read_page(u64::MAX, &mut buf).is_err());
    assert_eq!(buf, vec![0_u8; 8]);
    disk_manager.read_page(0, &mut buf).expect("read page 0");
    assert_eq!(buf, b"abcdefgh");
    assert_eq!(disk_manager.storage().len().expect("len"), 8);
    assert!(disk_manager.page_size() > 0);
}
