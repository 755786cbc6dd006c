mod buffer_pool_accessor;
mod durability;
mod error;
mod heap;
mod method;
mod page_accessor;
mod record_id;

pub use buffer_pool_accessor::{BufferPoolPageAccessor, maps_buffer_error};
pub use durability::{PooledHeap, lemma_fresh_pool_is_synced, lemma_records_survive_reopen};
pub use error::{AccessError, AccessErrorView, AccessResult, access_result_view};
pub use heap::{
    HeapAccessMethod, delete_in_page, fits, init_leaf, insert_in_page, leaf_check,
    lemma_insert_keeps_records, lemma_record_after_delete, lemma_record_after_insert,
    page_type_name, record_in_page, room_check, wrong_type_message,
};
pub use method::AccessMethod;
pub use page_accessor::PageAccessor;
pub use record_id::RecordId;
