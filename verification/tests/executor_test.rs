use mini_rdbms_rs::access::{AccessError, AccessMethod, AccessResult, RecordId};
use mini_rdbms_rs::cli::executor::{
    AccessMethodExecutor, ExecutionOutput, ExecutionPlan, Executor, ExecutorError,
};

#[derive(Debug, Default)]
struct MockAccessMethod {
    next_slot_id: u16,
    records: Vec<(RecordId, Vec<u8>)>,
}

impl MockAccessMethod {
    fn new() -> Self {
        Self::default()
    }
}

impl AccessMethod for MockAccessMethod {
    fn insert(&mut self, record: &[u8]) -> AccessResult<RecordId> {
        let record_id = RecordId::new(0, self.next_slot_id);
        self.next_slot_id += 1;

        self.records.push((record_id, record.to_vec()));

        Ok(record_id)
    }

    fn read(&mut self, record_id: RecordId) -> AccessResult<Vec<u8>> {
        self.records
            .iter()
            .find(|(id, _)| *id == record_id)
            .map(|(_, record)| record.clone())
            .ok_or(AccessError::PageNotFound {
                page_id: record_id.page_id(),
            })
    }

    fn delete(&mut self, record_id: RecordId) -> AccessResult<()> {
        let before = self.records.len();
        self.records.retain(|(id, _)| *id != record_id);

        if self.records.len() == before {
            return Err(AccessError::PageNotFound {
                page_id: record_id.page_id(),
            });
        }

        Ok(())
    }
}

#[test]
fn execute_insert_returns_inserted_record_id() {
    let mut executor = AccessMethodExecutor::new(MockAccessMethod::new());

    let result = executor
        .execute(ExecutionPlan::Insert {
            record: b"hello".to_vec(),
        })
        .expect("failed to execute insert plan");

    assert_eq!(
        result,
        ExecutionOutput::Inserted {
            record_id: RecordId::new(0, 0)
        }
    );
}

#[test]
fn execute_select_by_id_returns_record() {
    let mut executor = AccessMethodExecutor::new(MockAccessMethod::new());

    let inserted = executor
        .execute(ExecutionPlan::Insert {
            record: b"hello".to_vec(),
        })
        .expect("failed to execute insert plan");

    let record_id = match inserted {
        ExecutionOutput::Inserted { record_id } => record_id,
        _ => panic!("expected inserted output"),
    };

    let result = executor
        .execute(ExecutionPlan::SelectById { record_id })
        .expect("failed to execute select plan");

    assert_eq!(
        result,
        ExecutionOutput::Selected {
            record: b"hello".to_vec()
        }
    );
}

#[test]
fn execute_delete_by_id_removes_record() {
    let mut executor = AccessMethodExecutor::new(MockAccessMethod::new());

    let inserted = executor
        .execute(ExecutionPlan::Insert {
            record: b"hello".to_vec(),
        })
        .expect("failed to execute insert plan");

    let record_id = match inserted {
        ExecutionOutput::Inserted { record_id } => record_id,
        _ => panic!("expected inserted output"),
    };

    let delete_result = executor
        .execute(ExecutionPlan::DeleteById { record_id })
        .expect("failed to execute delete plan");

    assert_eq!(delete_result, ExecutionOutput::Deleted { affected_rows: 1 });

    let select_result = executor.execute(ExecutionPlan::SelectById { record_id });

    assert!(matches!(
        select_result,
        Err(ExecutorError::Access(AccessError::PageNotFound { page_id: 0 }))
    ));
}

#[test]
fn execute_propagates_access_error() {
    let mut executor = AccessMethodExecutor::new(MockAccessMethod::new());

    let result = executor.execute(ExecutionPlan::SelectById {
        record_id: RecordId::new(999, 0),
    });

    assert!(matches!(
        result,
        Err(ExecutorError::Access(AccessError::PageNotFound { page_id: 999 }))
    ));
}

struct RefusingAccessMethod;

impl AccessMethod for RefusingAccessMethod {
    fn insert(&mut self, _record: &[u8]) -> AccessResult<RecordId> {
        Err(AccessError::NoWritablePage)
    }

    fn read(&mut self, record_id: RecordId) -> AccessResult<Vec<u8>> {
        Err(AccessError::PageNotFound {
            page_id: record_id.page_id(),
        })
    }

    fn delete(&mut self, record_id: RecordId) -> AccessResult<()> {
        Err(AccessError::PageNotFound {
            page_id: record_id.page_id(),
        })
    }
}

#[test]
fn execute_passes_on_each_refusal_of_the_access_method() {
    let mut executor = AccessMethodExecutor::new(RefusingAccessMethod);

    assert_eq!(
        executor.execute(ExecutionPlan::Insert {
            record: b"x".to_vec()
        }),
        Err(ExecutorError::Access(AccessError::NoWritablePage))
    );
    assert_eq!(
        executor.execute(ExecutionPlan::DeleteById {
            record_id: RecordId::new(4, 0)
        }),
        Err(ExecutorError::Access(AccessError::PageNotFound { page_id: 4 }))
    );
}
