mod error;
pub mod laws;
pub mod layout;
mod manager;
mod slotted_page;

pub use error::{PageError, PageErrorView, PageResult, page_result_view};
pub use manager::{PageManager, SlotId, bytes_result_view};
pub use slotted_page::{PageType, SlottedPageManager};
