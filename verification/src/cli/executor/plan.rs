use vstd::prelude::*;

use crate::access::RecordId;

verus! {

/// What the executor is asked to do.
#[derive(Debug, Clone, PartialEq, Eq)]
pub enum ExecutionPlan {
    Insert { record: Vec<u8> },
    SelectById { record_id: RecordId },
    DeleteById { record_id: RecordId },
}

} // verus!
