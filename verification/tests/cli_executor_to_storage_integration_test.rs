use mini_rdbms_rs::access::{AccessError, BufferPoolPageAccessor, HeapAccessMethod, RecordId};
use mini_rdbms_rs::buffer::LruBufferManager;
use mini_rdbms_rs::cli::executor::{
    AccessMethodExecutor, ExecutionOutput, ExecutionPlan, Executor, ExecutorError,
};
use mini_rdbms_rs::disk::{PageId, StorageDiskManager};
use mini_rdbms_rs::page::{PageError, SlottedPageManager};
use mini_rdbms_rs::storage::{StorageEngine, StorageError, StorageResult};
use std::cell::RefCell;
use std::rc::Rc;

/// A byte store in memory that behaves as a file does: writes past the end
/// extend it with zeros, and reads past the end come back short.
#[derive(Clone, Default)]
struct MemoryStorage {
    bytes: Rc<RefCell<Vec<u8>>>,
}

impl StorageEngine for MemoryStorage {
    fn read_exact_at(&self, offset: u64, buf: &mut [u8]) -> StorageResult<()> {
        let bytes = self.bytes.borrow();
        let start = offset as usize;
        let available = bytes.len().saturating_sub(start).min(buf.len());
        if available < buf.len() {
            return Err(StorageError::Unexpected {
                offset,
                expected: buf.len(),
                actual: available,
            });
        }
        buf.copy_from_slice(&bytes[start..start + buf.len()]);
        Ok(())
    }

    fn write_exact_at(&mut self, offset: u64, buf: &[u8]) -> StorageResult<()> {
        if buf.is_empty() {
            return Ok(());
        }
        let mut bytes = self.bytes.borrow_mut();
        let start = offset as usize;
        if bytes.len() < start + buf.len() {
            bytes.resize(start + buf.len(), 0);
        }
        bytes[start..start + buf.len()].copy_from_slice(buf);
        Ok(())
    }

    fn flush(&self) -> StorageResult<()> {
        Ok(())
    }

    fn sync(&self) -> StorageResult<()> {
        Ok(())
    }

    fn len(&self) -> StorageResult<u64> {
        Ok(self.bytes.borrow().len() as u64)
    }

    fn truncate(&mut self, size: u64) -> StorageResult<()> {
        self.bytes.borrow_mut().resize(size as usize, 0);
        Ok(())
    }
}

type TestDiskManager = StorageDiskManager<MemoryStorage>;
type TestBufferManager = LruBufferManager<TestDiskManager>;
type TestAccessMethod =
    HeapAccessMethod<BufferPoolPageAccessor<TestBufferManager>, SlottedPageManager>;
type TestExecutor = AccessMethodExecutor<TestAccessMethod>;

fn create_executor(
    storage: MemoryStorage,
    page_size: usize,
    capacity: usize,
    page_ids: Vec<PageId>,
) -> TestExecutor {
    let disk_manager = StorageDiskManager::with_page_size(storage, page_size)
        .expect("failed to create disk manager");
    let buffer_manager =
        LruBufferManager::new(disk_manager, capacity).expect("failed to create buffer manager");
    let page_accessor = BufferPoolPageAccessor::new(buffer_manager, page_size);
    let access_method =
        HeapAccessMethod::with_pages(page_accessor, SlottedPageManager::new(), page_ids);

    AccessMethodExecutor::new(access_method)
}

#[test]
fn executor_round_trip_through_storage_stack() {
    let mut executor = create_executor(MemoryStorage::default(), 256, 8, vec![]);

    let insert_result = executor
        .execute(ExecutionPlan::Insert {
            record: b"hello-from-cli-executor".to_vec(),
        })
        .expect("failed to execute insert");

    let record_id = match insert_result {
        ExecutionOutput::Inserted { record_id } => record_id,
        _ => panic!("expected inserted output"),
    };

    let select_result = executor
        .execute(ExecutionPlan::SelectById { record_id })
        .expect("failed to execute select");

    assert_eq!(
        select_result,
        ExecutionOutput::Selected {
            record: b"hello-from-cli-executor".to_vec()
        }
    );

    let delete_result = executor
        .execute(ExecutionPlan::DeleteById { record_id })
        .expect("failed to execute delete");

    assert_eq!(delete_result, ExecutionOutput::Deleted { affected_rows: 1 });

    let select_after_delete = executor.execute(ExecutionPlan::SelectById { record_id });

    assert!(
        matches!(
            select_after_delete,
            Err(ExecutorError::Access(AccessError::Page(PageError::DeletedSlot { slot_id }))) if slot_id == record_id.slot_id()
        ),
        "deleted record should return DeletedSlot error"
    );
}

#[test]
fn executor_returns_invalid_access_page_for_unknown_record_id() {
    let mut executor = create_executor(MemoryStorage::default(), 256, 8, vec![]);

    let result = executor.execute(ExecutionPlan::SelectById {
        record_id: RecordId::new(999, 0),
    });

    assert!(matches!(
        result,
        Err(ExecutorError::Access(AccessError::InvalidAccessPage {
            page_id: 999,
            ..
        }))
    ));
}

#[test]
fn executor_reports_the_buffer_error_text_for_unknown_record_id() {
    let mut executor = create_executor(MemoryStorage::default(), 256, 8, vec![]);

    let result = executor.execute(ExecutionPlan::DeleteById {
        record_id: RecordId::new(3, 0),
    });

    match result {
        Err(ExecutorError::Access(AccessError::InvalidAccessPage { page_id, message })) => {
            assert_eq!(page_id, 3);
            assert_eq!(
                message,
                "storage error in buffer layer: Unexpected data at offset 768: expected 256 bytes, got 0 bytes"
            );
        }
        other => panic!("unexpected result: {:?}", other),
    }
    assert_eq!(
        executor.access_method().page_ids().len(),
        0
    );
}
