pub mod engine;
pub mod error;
pub mod transfer;

pub use engine::{StorageEngine, resized, untouched_outside, written};
pub use error::{StorageError, StorageErrorView, StorageResult, storage_message, storage_result_view};
pub use transfer::{read_progress, transfer_position, write_progress};
