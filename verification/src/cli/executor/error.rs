use vstd::prelude::*;

use crate::access::{AccessError, AccessErrorView};

verus! {

/// The errors of the executor.
#[derive(Debug, Clone, PartialEq, Eq)]
pub enum ExecutorError {
    Access(AccessError),
}

/// An `ExecutorError` with the access error inside it taken by its view.
pub enum ExecutorErrorView {
    Access(AccessErrorView),
}

impl View for ExecutorError {
    type V = ExecutorErrorView;

    open spec fn view(&self) -> ExecutorErrorView {
        match self {
            ExecutorError::Access(e) => ExecutorErrorView::Access(e@),
        }
    }
}

pub type ExecutorResult<T> = Result<T, ExecutorError>;

impl From<AccessError> for ExecutorError {
    fn from(error: AccessError) -> (r: Self) {
        ExecutorError::Access(error)
    }
}

impl vstd::std_specs::convert::FromSpecImpl<AccessError> for ExecutorError {
    open spec fn obeys_from_spec() -> bool {
        true
    }

    open spec fn from_spec(v: AccessError) -> ExecutorError {
        ExecutorError::Access(v)
    }
}

} // verus!
