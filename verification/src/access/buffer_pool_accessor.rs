use vstd::prelude::*;
use vstd::slice::slice_to_vec;

use crate::access::{AccessError, AccessErrorView, AccessResult, PageAccessor};
use crate::buffer::{BufferError, BufferErrorView, BufferManager, buffer_message};
use crate::disk::PageId;

verus! {

/// How a buffer error is reported by the access layer: a missing page stays a
/// missing page; any other error becomes `InvalidAccessPage` for `page_id`
/// (zero where there is none), with the buffer error's description.
pub open spec fn maps_buffer_error(
    e: BufferErrorView,
    page_id: Option<PageId>,
    a: AccessErrorView,
) -> bool {
    match e {
        BufferErrorView::PageNotFound { page_id: p } => a == AccessErrorView::PageNotFound {
            page_id: p,
        },
        _ => a matches AccessErrorView::InvalidAccessPage { page_id: q, message } && q == (
        match page_id {
            Some(p) => p,
            None => 0,
        }) && buffer_message(e, message),
    }
}

/// Pages read and written through a buffer pool; every write is flushed to
/// disk before it returns.
pub struct BufferPoolPageAccessor<B> where B: BufferManager {
    buffer_manager: B,
    page_size: usize,
}

impl<B> BufferPoolPageAccessor<B> where B: BufferManager {
    pub closed spec fn spec_buffer(&self) -> B {
        self.buffer_manager
    }

    /// The size of the pages this accessor hands out.
    pub closed spec fn spec_page_size_field(&self) -> nat {
        self.page_size as nat
    }

    pub fn new(buffer_manager: B, page_size: usize) -> (r: Self)
        ensures
            r.spec_buffer() == buffer_manager,
            r.spec_page_size() == page_size,
    {
        Self { buffer_manager, page_size }
    }

    fn map_buffer_error(error: BufferError, page_id: Option<PageId>) -> (r: AccessError)
        ensures
            maps_buffer_error(error@, page_id, r@),
    {
        match error {
            BufferError::PageNotFound { page_id } => AccessError::PageNotFound { page_id },
            error => {
                let page_id = match page_id {
                    Some(p) => p,
                    None => 0,
                };
                AccessError::InvalidAccessPage { page_id, message: error.message() }
            },
        }
    }
}

impl<B> PageAccessor for BufferPoolPageAccessor<B> where B: BufferManager {
    open spec fn inv(&self) -> bool {
        self.spec_buffer().inv()
    }

    open spec fn page(&self, page_id: PageId) -> Option<Seq<u8>> {
        self.spec_buffer().content(page_id)
    }

    open spec fn accessible(&self, page_id: PageId) -> bool {
        self.spec_buffer().pin_count(page_id) < usize::MAX
    }

    open spec fn spec_page_size(&self) -> nat {
        self.spec_page_size_field()
    }

    /// What the pool's disk holds.
    open spec fn stored(&self, page_id: PageId) -> Option<Seq<u8>> {
        self.spec_buffer().persisted(page_id)
    }

    /// An error of the pool's fetch of the page, reported as the access layer
    /// reports it.
    open spec fn read_refusal(page_id: PageId, e: AccessErrorView) -> bool {
        exists|b: BufferErrorView| #[trigger]
            B::fetch_refusal(page_id, b) && maps_buffer_error(b, Some(page_id), e)
    }

    /// An error of the pool's fetch, update or flush of the page, reported as
    /// the access layer reports it.
    open spec fn write_refusal(page_id: PageId, e: AccessErrorView) -> bool {
        exists|b: BufferErrorView|
            (B::fetch_refusal(page_id, b) || B::update_refusal(page_id, b) || B::flush_refusal(
                page_id,
                b,
            )) && #[trigger] maps_buffer_error(b, Some(page_id), e)
    }

    /// An error of the pool's new page, reported as the access layer reports it.
    open spec fn allocation_refusal(e: AccessErrorView) -> bool {
        exists|b: BufferErrorView| #[trigger] B::new_page_refusal(b) && maps_buffer_error(b, None, e)
    }

    /// Asks the pool for a new page and releases it at once: the new page is
    /// left unpinned and every other page keeps its pins, so the pool can
    /// evict it later.
    fn allocate_page(&mut self) -> (r: AccessResult<PageId>)
        ensures
            r matches Ok(id) ==> final(self).spec_buffer().content(id) == Some(
                crate::disk::zero_page(old(self).spec_buffer().spec_page_size()),
            ) && old(self).spec_buffer().persisted(id) is None,
            r matches Ok(id) ==> final(self).spec_buffer().pin_count(id) == 0 && forall|q: PageId|
                q != id ==> #[trigger] final(self).spec_buffer().pin_count(q) == old(
                    self).spec_buffer().pin_count(q),
    {
        let (page_id, _) = match self.buffer_manager.new_page() {
            Ok(v) => v,
            Err(error) => return Err(Self::map_buffer_error(error, None)),
        };
        match self.buffer_manager.unpin_page(page_id, false) {
            Ok(()) => {},
            Err(error) => return Err(Self::map_buffer_error(error, Some(page_id))),
        }
        Ok(page_id)
    }

    /// Fetches the page from the pool and releases it.
    fn read_page(&mut self, page_id: PageId) -> (r: AccessResult<Vec<u8>>)
        ensures
            r is Ok ==> forall|q: PageId| #[trigger] final(self).spec_buffer().pin_count(q) == old(
                self).spec_buffer().pin_count(q),
    {
        let page = match self.buffer_manager.fetch_page(page_id) {
            Ok(page) => page,
            Err(error) => return Err(Self::map_buffer_error(error, Some(page_id))),
        };
        match self.buffer_manager.unpin_page(page_id, false) {
            Ok(()) => {},
            Err(error) => return Err(Self::map_buffer_error(error, Some(page_id))),
        }
        Ok(page)
    }

    /// Fetches the page, replaces its content, releases it and flushes it:
    /// once this succeeds the disk holds the new content.
    fn write_page(&mut self, page_id: PageId, page: &[u8]) -> (r: AccessResult<()>)
        ensures
            r is Ok ==> final(self).spec_buffer().persisted(page_id) == Some(page@)
                && final(self).spec_buffer().content(page_id) == Some(page@),
            r is Ok ==> forall|q: PageId| #[trigger] final(self).spec_buffer().pin_count(q) == old(
                self).spec_buffer().pin_count(q),
    {
        match self.buffer_manager.fetch_page(page_id) {
            Ok(_) => {},
            Err(error) => return Err(Self::map_buffer_error(error, Some(page_id))),
        }
        match self.buffer_manager.update_page(page_id, slice_to_vec(page)) {
            Ok(()) => {},
            Err(error) => return Err(Self::map_buffer_error(error, Some(page_id))),
        }
        match self.buffer_manager.unpin_page(page_id, true) {
            Ok(()) => {},
            Err(error) => return Err(Self::map_buffer_error(error, Some(page_id))),
        }
        match self.buffer_manager.flush_page(page_id) {
            Ok(()) => {},
            Err(error) => return Err(Self::map_buffer_error(error, Some(page_id))),
        }
        Ok(())
    }

    fn page_size(&self) -> (r: usize) {
        self.page_size
    }
}

} // verus!
