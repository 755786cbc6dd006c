pub mod error;
pub mod frame;
pub mod lru_buffer;
pub mod manager;

pub use error::{BufferError, BufferErrorView, BufferResult, buffer_message, buffer_result_view};
pub use frame::{BufferFrame, FrameView};
pub use lru_buffer::LruBufferManager;
pub use manager::BufferManager;
