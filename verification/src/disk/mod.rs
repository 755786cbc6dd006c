pub mod manager;
pub mod storage_disk;

pub use manager::{DEFAULT_PAGE_SIZE, DiskManager, PageId, page_of, zero_page};
pub use storage_disk::StorageDiskManager;
