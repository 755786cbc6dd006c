use vstd::prelude::*;

use crate::storage::StorageResult;

verus! {

pub const DEFAULT_PAGE_SIZE: usize = 4096;

pub type PageId = u64;

/// A page of zeros.
pub open spec fn zero_page(page_size: nat) -> Seq<u8> {
    Seq::new(page_size, |i: int| 0u8)
}

/// Page `page_id` of a byte store cut into pages of `page_size` bytes, if the
/// store holds all of it.
pub open spec fn page_of(bytes: Seq<u8>, page_size: nat, page_id: nat) -> Option<Seq<u8>> {
    if page_id * page_size + page_size <= bytes.len() {
        Some(bytes.subrange((page_id * page_size) as int, (page_id * page_size + page_size) as int))
    } else {
        None
    }
}

/// Fixed-size pages on a byte store.
///
/// `stored_page(id)` is the content of page `id`, `None` where the store does
/// not hold the page in full.
///
/// Each implementation defines the spec functions; their default bodies leave
/// them unspecified, for implementations outside the verified code.
pub trait DiskManager {
    closed spec fn spec_page_size(&self) -> nat {
        arbitrary()
    }

    closed spec fn stored_page(&self, page_id: PageId) -> Option<Seq<u8>> {
        arbitrary()
    }

    fn page_size(&self) -> (r: usize)
        ensures
            r == self.spec_page_size(),
    ;

    /// Reads page `page_id` into `buf`.
    fn read_page(&self, page_id: PageId, buf: &mut [u8]) -> (r: StorageResult<()>)
        ensures
            final(buf)@.len() == old(buf)@.len(),
            r is Ok ==> self.stored_page(page_id) == Some(final(buf)@),
    ;

    /// Writes `page` as page `page_id`; the other pages that were stored stay
    /// as they were, whether or not the write succeeds, and a successful write
    /// over a stored page changes no other page.
    fn write_page(&mut self, page_id: PageId, page: &[u8]) -> (r: StorageResult<()>)
        ensures
            final(self).spec_page_size() == old(self).spec_page_size(),
            r is Ok ==> final(self).stored_page(page_id) == Some(page@),
            r is Ok && old(self).stored_page(page_id) is Some ==> forall|q: PageId|
                q != page_id ==> #[trigger] final(self).stored_page(q) == old(self).stored_page(q),
            forall|q: PageId|
                q != page_id && (#[trigger] old(self).stored_page(q)) is Some
                    ==> final(self).stored_page(q) == old(self).stored_page(q),
    ;

    /// Adds a page of zeros and returns its id; changes no other page, and
    /// none when it fails.
    fn allocate_page(&mut self) -> (r: StorageResult<PageId>)
        ensures
            final(self).spec_page_size() == old(self).spec_page_size(),
            r matches Ok(id) ==> {
                &&& old(self).stored_page(id) is None
                &&& final(self).stored_page(id) == Some(zero_page(old(self).spec_page_size()))
                &&& forall|q: PageId|
                    q != id ==> #[trigger] final(self).stored_page(q) == old(self).stored_page(q)
            },
            r is Err ==> forall|q: PageId| #[trigger]
                final(self).stored_page(q) == old(self).stored_page(q),
    ;

    /// The number of pages: exactly the pages below it are stored.
    fn page_count(&self) -> (r: StorageResult<u64>)
        ensures
            r matches Ok(n) ==> forall|q: PageId| #[trigger]
                self.stored_page(q) is Some <==> q < n,
    ;

    fn flush(&self) -> (r: StorageResult<()>);

    fn sync(&self) -> (r: StorageResult<()>);
}

} // verus!
