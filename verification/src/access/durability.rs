use vstd::prelude::*;

use crate::access::{AccessMethod, BufferPoolPageAccessor, HeapAccessMethod, PageAccessor, RecordId};
use crate::buffer::{FrameView, LruBufferManager};
use crate::disk::{DiskManager, PageId};
use crate::page::PageManager;

verus! {

/// A heap over a buffer pool, over a disk.
pub type PooledHeap<D, P> = HeapAccessMethod<BufferPoolPageAccessor<LruBufferManager<D>>, P>;

/// Records outlive the stack that wrote them: a heap built afresh, over a pool
/// that caches nothing yet and a disk that holds what the old disk held of
/// the record's page, reads the record as the old heap did, wherever the old
/// heap's page agreed with its disk (as every page a heap inserts into or
/// deletes from does once the call succeeds).
pub proof fn lemma_records_survive_reopen<D: DiskManager, P: PageManager>(
    before: PooledHeap<D, P>,
    after: PooledHeap<D, P>,
    record_id: RecordId,
)
    requires
        before.synced(record_id.page_id),
        after.spec_accessor().spec_buffer().frames() == Map::<PageId, FrameView>::empty(),
        after.spec_accessor().spec_buffer().spec_disk().stored_page(record_id.page_id)
            == before.spec_accessor().spec_buffer().spec_disk().stored_page(record_id.page_id),
        after.spec_manager() == before.spec_manager(),
    ensures
        after.record(record_id) == before.record(record_id),
{
}

/// A heap over a pool that caches nothing agrees with its disk on every page.
pub proof fn lemma_fresh_pool_is_synced<D: DiskManager, P: PageManager>(
    heap: PooledHeap<D, P>,
    page_id: PageId,
)
    requires
        heap.spec_accessor().spec_buffer().frames() == Map::<PageId, FrameView>::empty(),
    ensures
        heap.synced(page_id),
{
}

} // verus!
