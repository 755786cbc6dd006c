use vstd::prelude::*;
use vstd::string::StringExecFns;

use crate::text::{decimal, push_decimal};

verus! {

#[verifier::external_type_specification]
#[verifier::external_body]
pub struct ExIoError(std::io::Error);

/// The errors of the storage layer: a failed I/O operation, a read or write
/// that moved fewer bytes than asked, or an argument that was refused.
#[derive(Debug)]
pub enum StorageError {
    IoError(std::io::Error),
    Unexpected { offset: u64, expected: usize, actual: usize },
    InvalidArgument { message: String },
}

/// A `StorageError` with its message taken as a sequence of characters.
pub enum StorageErrorView {
    IoError(std::io::Error),
    Unexpected { offset: u64, expected: usize, actual: usize },
    InvalidArgument { message: Seq<char> },
}

impl View for StorageError {
    type V = StorageErrorView;

    open spec fn view(&self) -> StorageErrorView {
        match self {
            StorageError::IoError(e) => StorageErrorView::IoError(*e),
            StorageError::Unexpected { offset, expected, actual } => StorageErrorView::Unexpected {
                offset: *offset,
                expected: *expected,
                actual: *actual,
            },
            StorageError::InvalidArgument { message } => StorageErrorView::InvalidArgument {
                message: message@,
            },
        }
    }
}

pub type StorageResult<T> = Result<T, StorageError>;

/// A storage result with its error taken by its view.
pub open spec fn storage_result_view<T>(r: StorageResult<T>) -> Result<T, StorageErrorView> {
    match r {
        Ok(v) => Ok(v),
        Err(e) => Err(e@),
    }
}

impl From<std::io::Error> for StorageError {
    fn from(error: std::io::Error) -> (r: Self) {
        StorageError::IoError(error)
    }
}

impl vstd::std_specs::convert::FromSpecImpl<std::io::Error> for StorageError {
    open spec fn obeys_from_spec() -> bool {
        true
    }

    open spec fn from_spec(v: std::io::Error) -> StorageError {
        StorageError::IoError(v)
    }
}

/// The text of an I/O error, as the operating system reports it.
///
/// Calls `<std::io::Error as Display>::fmt` through `to_string`. The text
/// depends on the platform and its locale, so nothing is stated of it.
#[verifier::external_body]
fn io_error_text(error: &std::io::Error) -> String {
    error.to_string()
}

/// Whether `text` is the human-readable description of `e`: fixed for each
/// variant, with the operating system's own text after the prefix for an I/O
/// error.
pub open spec fn storage_message(e: StorageErrorView, text: Seq<char>) -> bool {
    match e {
        StorageErrorView::IoError(_) => exists|t: Seq<char>| text == "Storage I/O error: "@ + t,
        StorageErrorView::Unexpected { offset, expected, actual } => text
            == "Unexpected data at offset "@ + decimal(offset as nat) + ": expected "@ + decimal(
            expected as nat,
        ) + " bytes, got "@ + decimal(actual as nat) + " bytes"@,
        StorageErrorView::InvalidArgument { message } => text == "Invalid argument: "@ + message,
    }
}

impl StorageError {
    /// The human-readable description of the error.
    pub fn message(&self) -> (s: String)
        ensures
            storage_message(self@, s@),
    {
        match self {
            StorageError::IoError(error) => {
                let mut s = String::from_str("Storage I/O error: ");
                let t = io_error_text(error);
                s.append(t.as_str());
                assert(s@ == "Storage I/O error: "@ + t@);
                s
            },
            StorageError::Unexpected { offset, expected, actual } => {
                let mut s = String::from_str("Unexpected data at offset ");
                push_decimal(&mut s, *offset);
                s.append(": expected ");
                push_decimal(&mut s, *expected as u64);
                s.append(" bytes, got ");
                push_decimal(&mut s, *actual as u64);
                s.append(" bytes");
                s
            },
            StorageError::InvalidArgument { message } => {
                let mut s = String::from_str("Invalid argument: ");
                s.append(message.as_str());
                s
            },
        }
    }
}

} // verus!
