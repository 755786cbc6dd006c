use vstd::prelude::*;

use crate::access::{AccessErrorView, AccessResult};
use crate::disk::PageId;

verus! {

/// Whole pages, read and written by id.
///
/// `page(id)` is the content of page `id`, if it has any; `stored(id)` is
/// what the store behind the accessor holds of it. Where the two agree they
/// keep agreeing through the operations that succeed, but for the page they
/// change, and a written page is stored. `accessible(id)`
/// holds where the page can be read or written without exhausting a counter
/// of the layer below. `read_refusal(id, e)`, `write_refusal(id, e)` and
/// `allocation_refusal(e)` say which errors these operations may give.
///
/// Each implementation defines the spec functions; their default bodies leave
/// them unspecified, for implementations outside the verified code.
pub trait PageAccessor: Sized {
    closed spec fn inv(&self) -> bool {
        arbitrary()
    }

    closed spec fn page(&self, page_id: PageId) -> Option<Seq<u8>> {
        arbitrary()
    }

    closed spec fn accessible(&self, page_id: PageId) -> bool {
        arbitrary()
    }

    closed spec fn spec_page_size(&self) -> nat {
        arbitrary()
    }

    /// What the store behind the accessor holds of page `page_id`: what an
    /// accessor built afresh over that store would read.
    closed spec fn stored(&self, page_id: PageId) -> Option<Seq<u8>> {
        arbitrary()
    }

    closed spec fn read_refusal(page_id: PageId, e: AccessErrorView) -> bool {
        arbitrary()
    }

    closed spec fn write_refusal(page_id: PageId, e: AccessErrorView) -> bool {
        arbitrary()
    }

    closed spec fn allocation_refusal(e: AccessErrorView) -> bool {
        arbitrary()
    }

    /// Adds a page of zeros and returns its id.
    fn allocate_page(&mut self) -> (r: AccessResult<PageId>)
        requires
            old(self).inv(),
        ensures
            final(self).inv(),
            final(self).spec_page_size() == old(self).spec_page_size(),
            r matches Ok(id) ==> {
                &&& final(self).page(id) is Some
                &&& final(self).accessible(id)
                &&& forall|q: PageId| q != id && #[trigger] old(self).page(q) is Some ==> final(self).page(q) == old(self).page(q)
            },
            forall|q: PageId| #[trigger] old(self).accessible(q) && (r is Err || q != r->Ok_0) ==> final(self).accessible(q),
            r matches Err(e) ==> Self::allocation_refusal(e@),
            r matches Ok(id) ==> forall|q: PageId|
                q != id && old(self).stored(q) == old(self).page(q) ==> #[trigger] final(self).stored(q)
                    == final(self).page(q),
    ;

    /// Returns a copy of page `page_id`.
    fn read_page(&mut self, page_id: PageId) -> (r: AccessResult<Vec<u8>>)
        requires
            old(self).inv(),
            old(self).accessible(page_id),
        ensures
            final(self).inv(),
            final(self).spec_page_size() == old(self).spec_page_size(),
            r matches Ok(page) ==> old(self).page(page_id) == Some(page@),
            r matches Err(e) ==> Self::read_refusal(page_id, e@),
            r is Ok ==> forall|q: PageId| #[trigger] old(self).page(q) is Some ==> final(self).page(q) == old(self).page(q),
            forall|q: PageId| #[trigger] old(self).accessible(q) ==> final(self).accessible(q),
            r is Ok ==> forall|q: PageId|
                old(self).stored(q) == old(self).page(q) ==> #[trigger] final(self).stored(q)
                    == final(self).page(q),
    ;

    /// Replaces page `page_id` with `page`.
    fn write_page(&mut self, page_id: PageId, page: &[u8]) -> (r: AccessResult<()>)
        requires
            old(self).inv(),
            old(self).accessible(page_id),
        ensures
            final(self).inv(),
            final(self).spec_page_size() == old(self).spec_page_size(),
            r is Ok ==> final(self).page(page_id) == Some(page@),
            r matches Err(e) ==> Self::write_refusal(page_id, e@),
            r is Ok ==> forall|q: PageId| q != page_id && #[trigger] old(self).page(q) is Some ==> final(self).page(q) == old(self).page(q),
            forall|q: PageId| #[trigger] old(self).accessible(q) && (r is Ok || q != page_id) ==> final(self).accessible(q),
            r is Ok ==> final(self).stored(page_id) == Some(page@),
            r is Ok ==> forall|q: PageId|
                q != page_id && old(self).stored(q) == old(self).page(q) ==> #[trigger] final(
                    self).stored(q) == final(self).page(q),
    ;

    fn page_size(&self) -> (r: usize)
        ensures
            r == self.spec_page_size(),
    ;
}

} // verus!
