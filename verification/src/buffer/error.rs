use vstd::prelude::*;
use vstd::string::StringExecFns;

use crate::disk::PageId;
use crate::storage::{StorageError, StorageErrorView, storage_message};
use crate::text::{decimal, push_decimal};

verus! {

pub type BufferResult<T> = Result<T, BufferError>;

/// The errors of the buffer pool.
#[derive(Debug)]
pub enum BufferError {
    InvalidCapacity,
    InvalidPageSize { expected: usize, actual: usize },
    NoEvictablePage,
    PageNotFound { page_id: PageId },
    PageNotPinned { page_id: PageId },
    Storage(StorageError),
}

/// A `BufferError` with the storage error inside it taken by its view.
pub enum BufferErrorView {
    InvalidCapacity,
    InvalidPageSize { expected: usize, actual: usize },
    NoEvictablePage,
    PageNotFound { page_id: PageId },
    PageNotPinned { page_id: PageId },
    Storage(StorageErrorView),
}

impl View for BufferError {
    type V = BufferErrorView;

    open spec fn view(&self) -> BufferErrorView {
        match self {
            BufferError::InvalidCapacity => BufferErrorView::InvalidCapacity,
            BufferError::InvalidPageSize { expected, actual } => BufferErrorView::InvalidPageSize {
                expected: *expected,
                actual: *actual,
            },
            BufferError::NoEvictablePage => BufferErrorView::NoEvictablePage,
            BufferError::PageNotFound { page_id } => BufferErrorView::PageNotFound {
                page_id: *page_id,
            },
            BufferError::PageNotPinned { page_id } => BufferErrorView::PageNotPinned {
                page_id: *page_id,
            },
            BufferError::Storage(e) => BufferErrorView::Storage(e@),
        }
    }
}

/// A buffer result with its error taken by its view.
pub open spec fn buffer_result_view<T>(r: BufferResult<T>) -> Result<T, BufferErrorView> {
    match r {
        Ok(v) => Ok(v),
        Err(e) => Err(e@),
    }
}

impl From<StorageError> for BufferError {
    fn from(error: StorageError) -> (r: Self) {
        BufferError::Storage(error)
    }
}

impl vstd::std_specs::convert::FromSpecImpl<StorageError> for BufferError {
    open spec fn obeys_from_spec() -> bool {
        true
    }

    open spec fn from_spec(v: StorageError) -> BufferError {
        BufferError::Storage(v)
    }
}

/// Whether `text` is the human-readable description of `e`.
pub open spec fn buffer_message(e: BufferErrorView, text: Seq<char>) -> bool {
    match e {
        BufferErrorView::InvalidCapacity => text == "buffer pool capacity must be greater than zero"@,
        BufferErrorView::InvalidPageSize { expected, actual } => text == "invalid page size: expected "@
            + decimal(expected as nat) + " bytes, actual "@ + decimal(actual as nat) + " bytes"@,
        BufferErrorView::NoEvictablePage => text == "no evictable page found"@,
        BufferErrorView::PageNotFound { page_id } => text == "page not found in buffer pool: page_id="@
            + decimal(page_id as nat),
        BufferErrorView::PageNotPinned { page_id } => text == "page is not pinned: page_id="@
            + decimal(page_id as nat),
        BufferErrorView::Storage(s) => exists|t: Seq<char>|
            storage_message(s, t) && text == "storage error in buffer layer: "@ + t,
    }
}

impl BufferError {
    /// The human-readable description of the error.
    pub fn message(&self) -> (s: String)
        ensures
            buffer_message(self@, s@),
    {
        match self {
            BufferError::InvalidCapacity => String::from_str(
                "buffer pool capacity must be greater than zero",
            ),
            BufferError::InvalidPageSize { expected, actual } => {
                let mut s = String::from_str("invalid page size: expected ");
                push_decimal(&mut s, *expected as u64);
                s.append(" bytes, actual ");
                push_decimal(&mut s, *actual as u64);
                s.append(" bytes");
                s
            },
            BufferError::NoEvictablePage => String::from_str("no evictable page found"),
            BufferError::PageNotFound { page_id } => {
                let mut s = String::from_str("page not found in buffer pool: page_id=");
                push_decimal(&mut s, *page_id);
                s
            },
            BufferError::PageNotPinned { page_id } => {
                let mut s = String::from_str("page is not pinned: page_id=");
                push_decimal(&mut s, *page_id);
                s
            },
            BufferError::Storage(error) => {
                let mut s = String::from_str("storage error in buffer layer: ");
                let t = error.message();
                s.append(t.as_str());
                assert(s@ == "storage error in buffer layer: "@ + t@);
                s
            },
        }
    }
}

} // verus!
