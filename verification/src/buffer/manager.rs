use vstd::prelude::*;

use crate::buffer::{BufferErrorView, BufferResult, buffer_result_view};
use crate::disk::{PageId, zero_page};

verus! {

/// A cache of pages in front of a disk.
///
/// `content(p)` is the page as users see it: the cached copy when `p` is
/// resident, else what the disk holds; `persisted(p)` is what the disk holds.
/// A resident page is pinned by each user that fetched it and has not yet
/// unpinned it, and a pinned page never leaves the pool. `fetch_refusal(p, e)`,
/// `new_page_refusal(e)`, `update_refusal(p, e)` and `flush_refusal(p, e)` say
/// which errors these operations may give.
///
/// A page that has content keeps it through every operation but the ones that
/// change it. (A page without content may gain some: a disk may fill a gap it
/// opens with zeros.) When an operation fails, the one exception is an
/// unpinned resident page that was being pushed out of the pool: its unwritten
/// changes may be lost.
///
/// A page whose content is what the disk holds stays so through the
/// operations that succeed, but for the page they change.
///
/// Each implementation defines the spec functions; their default bodies leave
/// them unspecified, for implementations outside the verified code.
pub trait BufferManager: Sized {
    closed spec fn inv(&self) -> bool {
        arbitrary()
    }

    closed spec fn content(&self, page_id: PageId) -> Option<Seq<u8>> {
        arbitrary()
    }

    closed spec fn persisted(&self, page_id: PageId) -> Option<Seq<u8>> {
        arbitrary()
    }

    closed spec fn is_resident(&self, page_id: PageId) -> bool {
        arbitrary()
    }

    closed spec fn pin_count(&self, page_id: PageId) -> nat {
        arbitrary()
    }

    closed spec fn spec_page_size(&self) -> nat {
        arbitrary()
    }

    closed spec fn spec_capacity(&self) -> nat {
        arbitrary()
    }

    closed spec fn spec_len(&self) -> nat {
        arbitrary()
    }

    /// `e` is an error this pool may answer to a fetch of page `page_id`.
    closed spec fn fetch_refusal(page_id: PageId, e: BufferErrorView) -> bool {
        arbitrary()
    }

    closed spec fn new_page_refusal(e: BufferErrorView) -> bool {
        arbitrary()
    }

    closed spec fn update_refusal(page_id: PageId, e: BufferErrorView) -> bool {
        arbitrary()
    }

    closed spec fn flush_refusal(page_id: PageId, e: BufferErrorView) -> bool {
        arbitrary()
    }

    /// Returns a copy of the page and pins it.
    fn fetch_page(&mut self, page_id: PageId) -> (r: BufferResult<Vec<u8>>)
        requires
            old(self).inv(),
            old(self).pin_count(page_id) < usize::MAX,
        ensures
            final(self).inv(),
            final(self).spec_page_size() == old(self).spec_page_size(),
            final(self).spec_capacity() == old(self).spec_capacity(),
            forall|q: PageId| #[trigger] old(self).is_resident(q) && old(self).pin_count(q) > 0 ==> final(self).is_resident(q),
            r matches Ok(data) ==> {
                &&& old(self).content(page_id) == Some(data@)
                &&& (forall|q: PageId| #[trigger] old(self).content(q) is Some ==> final(self).content(q) == old(self).content(q))
                &&& final(self).is_resident(page_id)
                &&& final(self).pin_count(page_id) == old(self).pin_count(page_id) + 1
                &&& (forall|q: PageId| q != page_id ==> #[trigger] final(self).pin_count(q) == old(self).pin_count(q))
            },
            r is Err ==> forall|q: PageId| #[trigger] final(self).pin_count(q) == old(self).pin_count(q),
            r is Err ==> forall|q: PageId| #[trigger] old(self).content(q) is Some ==> final(self).content(q) == old(self).content(q) || (old(self).is_resident(q) && old(self).pin_count(q) == 0 && !final(self).is_resident(q)),
            r matches Err(e) ==> Self::fetch_refusal(page_id, e@),
            r is Ok ==> forall|q: PageId|
                old(self).persisted(q) == old(self).content(q) ==> #[trigger] final(self).persisted(q)
                    == final(self).content(q),
    ;

    /// Adds a page of zeros on disk, caches it and pins it.
    fn new_page(&mut self) -> (r: BufferResult<(PageId, Vec<u8>)>)
        requires
            old(self).inv(),
        ensures
            final(self).inv(),
            final(self).spec_page_size() == old(self).spec_page_size(),
            final(self).spec_capacity() == old(self).spec_capacity(),
            forall|q: PageId| #[trigger] old(self).is_resident(q) && old(self).pin_count(q) > 0 ==> final(self).is_resident(q),
            r matches Ok((id, data)) ==> {
                &&& old(self).persisted(id) is None
                &&& !old(self).is_resident(id) ==> final(self).persisted(id) == Some(data@)
                &&& data@ == zero_page(old(self).spec_page_size())
                &&& final(self).content(id) == Some(data@)
                &&& (forall|q: PageId| q != id && #[trigger] old(self).content(q) is Some ==> final(self).content(q) == old(self).content(q))
                &&& final(self).is_resident(id)
                &&& final(self).pin_count(id) == 1
                &&& (forall|q: PageId| q != id ==> #[trigger] final(self).pin_count(q) == old(self).pin_count(q))
            },
            r is Err ==> forall|q: PageId| #[trigger] final(self).pin_count(q) == old(self).pin_count(q),
            r is Err ==> forall|q: PageId| #[trigger] old(self).content(q) is Some ==> final(self).content(q) == old(self).content(q) || (old(self).is_resident(q) && old(self).pin_count(q) == 0 && !final(self).is_resident(q)),
            r matches Err(e) ==> Self::new_page_refusal(e@),
            r matches Ok((id, _)) ==> forall|q: PageId|
                q != id && old(self).persisted(q) == old(self).content(q) ==> #[trigger] final(
                    self).persisted(q) == final(self).content(q),
    ;

    /// Replaces the content of a page; refuses data that is not one page long.
    fn update_page(&mut self, page_id: PageId, data: Vec<u8>) -> (r: BufferResult<()>)
        requires
            old(self).inv(),
        ensures
            final(self).inv(),
            final(self).spec_page_size() == old(self).spec_page_size(),
            final(self).spec_capacity() == old(self).spec_capacity(),
            forall|q: PageId| #[trigger] old(self).is_resident(q) && old(self).pin_count(q) > 0 ==> final(self).is_resident(q),
            data@.len() != old(self).spec_page_size() ==> buffer_result_view(r) == Err::<
                (),
                BufferErrorView,
            >(
                BufferErrorView::InvalidPageSize {
                    expected: old(self).spec_page_size() as usize,
                    actual: data@.len() as usize,
                },
            ) && (forall|q: PageId| #[trigger] final(self).content(q) == old(self).content(q))
                && (forall|q: PageId| #[trigger] final(self).persisted(q) == old(self).persisted(q))
                && (forall|q: PageId| #[trigger] final(self).pin_count(q) == old(self).pin_count(q))
                && (forall|q: PageId| #[trigger] final(self).is_resident(q) == old(self).is_resident(q)),
            r is Ok ==> {
                &&& final(self).content(page_id) == Some(data@)
                &&& (forall|q: PageId| q != page_id && #[trigger] old(self).content(q) is Some ==> final(self).content(q) == old(self).content(q))
                &&& final(self).is_resident(page_id)
                &&& final(self).pin_count(page_id) == if old(self).is_resident(page_id) {
                    old(self).pin_count(page_id)
                } else {
                    1
                }
                &&& (forall|q: PageId| q != page_id ==> #[trigger] final(self).pin_count(q) == old(self).pin_count(q))
            },
            r is Err ==> forall|q: PageId| #[trigger] final(self).pin_count(q) == old(self).pin_count(q),
            r is Err ==> forall|q: PageId| #[trigger] old(self).content(q) is Some ==> final(self).content(q) == old(self).content(q) || (old(self).is_resident(q) && old(self).pin_count(q) == 0 && !final(self).is_resident(q)),
            r matches Err(e) ==> Self::update_refusal(page_id, e@),
            r is Ok ==> forall|q: PageId|
                q != page_id && old(self).persisted(q) == old(self).content(q) ==> #[trigger] final(
                    self).persisted(q) == final(self).content(q),
    ;

    /// Releases one pin of a resident page, and marks it dirty if asked.
    fn unpin_page(&mut self, page_id: PageId, is_dirty: bool) -> (r: BufferResult<()>)
        requires
            old(self).inv(),
        ensures
            final(self).inv(),
            final(self).spec_page_size() == old(self).spec_page_size(),
            final(self).spec_capacity() == old(self).spec_capacity(),
            !old(self).is_resident(page_id) ==> buffer_result_view(r) == Err::<(), BufferErrorView>(
                BufferErrorView::PageNotFound { page_id },
            ) && (forall|q: PageId| #[trigger] final(self).content(q) == old(self).content(q))
                && (forall|q: PageId| #[trigger] final(self).persisted(q) == old(self).persisted(q))
                && (forall|q: PageId| #[trigger] final(self).pin_count(q) == old(self).pin_count(q))
                && (forall|q: PageId| #[trigger] final(self).is_resident(q) == old(self).is_resident(q)),
            old(self).is_resident(page_id) && old(self).pin_count(page_id) == 0
                ==> buffer_result_view(r) == Err::<(), BufferErrorView>(
                BufferErrorView::PageNotPinned { page_id },
            ) && (forall|q: PageId| #[trigger] final(self).content(q) == old(self).content(q))
                && (forall|q: PageId| #[trigger] final(self).persisted(q) == old(self).persisted(q))
                && (forall|q: PageId| #[trigger] final(self).pin_count(q) == old(self).pin_count(q))
                && (forall|q: PageId| #[trigger] final(self).is_resident(q) == old(self).is_resident(q)),
            old(self).is_resident(page_id) && old(self).pin_count(page_id) > 0 ==> {
                &&& r is Ok
                &&& final(self).pin_count(page_id) == old(self).pin_count(page_id) - 1
                &&& (forall|q: PageId| q != page_id ==> #[trigger] final(self).pin_count(q) == old(self).pin_count(q))
                &&& (forall|q: PageId| #[trigger] old(self).content(q) is Some ==> final(self).content(q) == old(self).content(q))
                &&& (forall|q: PageId| #[trigger] final(self).is_resident(q) == old(self).is_resident(q))
            },
            forall|q: PageId|
                old(self).persisted(q) == old(self).content(q) ==> #[trigger] final(self).persisted(q)
                    == final(self).content(q),
    ;

    /// Writes a resident page to disk if it changed since it was last written.
    fn flush_page(&mut self, page_id: PageId) -> (r: BufferResult<()>)
        requires
            old(self).inv(),
        ensures
            final(self).inv(),
            final(self).spec_page_size() == old(self).spec_page_size(),
            final(self).spec_capacity() == old(self).spec_capacity(),
            !old(self).is_resident(page_id) ==> buffer_result_view(r) == Err::<(), BufferErrorView>(
                BufferErrorView::PageNotFound { page_id },
            ) && (forall|q: PageId| #[trigger] final(self).content(q) == old(self).content(q))
                && (forall|q: PageId| #[trigger] final(self).persisted(q) == old(self).persisted(q))
                && (forall|q: PageId| #[trigger] final(self).pin_count(q) == old(self).pin_count(q))
                && (forall|q: PageId| #[trigger] final(self).is_resident(q) == old(self).is_resident(q)),
            (forall|q: PageId| #[trigger] old(self).content(q) is Some ==> final(self).content(q) == old(self).content(q)),
            (forall|q: PageId| #[trigger] final(self).pin_count(q) == old(self).pin_count(q)),
            (forall|q: PageId| #[trigger] final(self).is_resident(q) == old(self).is_resident(q)),
            r is Ok ==> final(self).persisted(page_id) == final(self).content(page_id),
            r matches Err(e) ==> Self::flush_refusal(page_id, e@),
            r is Ok ==> forall|q: PageId|
                old(self).persisted(q) == old(self).content(q) ==> #[trigger] final(self).persisted(q)
                    == final(self).content(q),
    ;

    /// Writes every changed resident page to disk.
    fn flush_all(&mut self) -> (r: BufferResult<()>)
        requires
            old(self).inv(),
        ensures
            final(self).inv(),
            final(self).spec_page_size() == old(self).spec_page_size(),
            final(self).spec_capacity() == old(self).spec_capacity(),
            (forall|q: PageId| #[trigger] old(self).content(q) is Some ==> final(self).content(q) == old(self).content(q)),
            (forall|q: PageId| #[trigger] final(self).pin_count(q) == old(self).pin_count(q)),
            (forall|q: PageId| #[trigger] final(self).is_resident(q) == old(self).is_resident(q)),
            r is Ok ==> forall|q: PageId| #[trigger]
                final(self).persisted(q) == final(self).content(q),
    ;

    /// The number of resident pages.
    fn len(&self) -> (r: usize)
        requires
            self.inv(),
        ensures
            r == self.spec_len(),
    ;

    fn is_empty(&self) -> (r: bool)
        requires
            self.inv(),
        ensures
            r == (self.spec_len() == 0),
    {
        self.len() == 0
    }

    fn capacity(&self) -> (r: usize)
        ensures
            r == self.spec_capacity(),
    ;
}

} // verus!
