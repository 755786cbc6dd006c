use vstd::prelude::*;
use vstd::string::StringExecFns;

use crate::disk::manager::{page_of, zero_page};
use crate::disk::{DEFAULT_PAGE_SIZE, DiskManager, PageId};
use crate::storage::{StorageEngine, StorageError, StorageErrorView, StorageResult, resized, storage_result_view, written};
use crate::text::{decimal, push_decimal};

verus! {

/// Pages of a fixed size laid end to end on a storage engine: page `id`
/// starts at byte `id * page_size`.
pub struct StorageDiskManager<S> where S: StorageEngine {
    storage: S,
    page_size: PageSize,
}

/// A page size, never zero.
struct PageSize {
    bytes: usize,
}

impl PageSize {
    #[verifier::type_invariant]
    spec fn is_positive(self) -> bool {
        self.bytes > 0
    }

    fn get(&self) -> (r: usize)
        ensures
            r == self.bytes,
            r > 0,
    {
        proof {
            use_type_invariant(self);
        }
        self.bytes
    }
}

pub open spec fn zero_page_size_message() -> Seq<char> {
    "page_size must be greater than 0"@
}

pub open spec fn offset_overflow_message(page_id: PageId, page_size: nat) -> Seq<char> {
    "page offset overflow: page_id="@ + decimal(page_id as nat) + ", page_size="@ + decimal(
        page_size,
    )
}

pub open spec fn buffer_mismatch_message(expected: nat, actual: nat) -> Seq<char> {
    "page buffer size mismatch: expected "@ + decimal(expected) + ", actual "@ + decimal(actual)
}

pub open spec fn unaligned_message(len: nat, page_size: nat) -> Seq<char> {
    "storage length is not page aligned: len="@ + decimal(len) + ", page_size="@ + decimal(
        page_size,
    )
}

pub open spec fn length_overflow_message(len: nat, page_size: nat) -> Seq<char> {
    "storage length overflow: len="@ + decimal(len) + ", page_size="@ + decimal(page_size)
}

/// The error `InvalidArgument` with the given message.
pub open spec fn invalid_argument(message: Seq<char>) -> StorageErrorView {
    StorageErrorView::InvalidArgument { message }
}

proof fn lemma_pages_apart(p: nat, q: nat, ps: nat)
    requires
        p != q,
        ps > 0,
    ensures
        p * ps + ps <= q * ps || q * ps + ps <= p * ps,
{
    if p < q {
        assert(p * ps + ps <= q * ps) by (nonlinear_arith)
            requires
                p < q,
                ps > 0,
        ;
    } else {
        assert(q * ps + ps <= p * ps) by (nonlinear_arith)
            requires
                q < p,
                ps > 0,
        ;
    }
}

proof fn lemma_page_below(q: nat, n: nat, ps: nat)
    requires
        ps > 0,
    ensures
        q * ps + ps <= n * ps <==> q < n,
{
    if q < n {
        assert(q * ps + ps <= n * ps) by (nonlinear_arith)
            requires
                q < n,
                ps > 0,
        ;
    } else {
        assert(q * ps + ps > n * ps) by (nonlinear_arith)
            requires
                q >= n,
                ps > 0,
        ;
    }
}

proof fn lemma_aligned(len: nat, ps: nat)
    requires
        ps > 0,
        len % ps == 0,
    ensures
        (len / ps) * ps == len,
{
    vstd::arithmetic::div_mod::lemma_fundamental_div_mod(len as int, ps as int);
    assert((len / ps) * ps == ps * (len / ps)) by (nonlinear_arith);
}

impl<S> StorageDiskManager<S> where S: StorageEngine {
    /// The storage engine the pages live on.
    pub closed spec fn spec_storage(&self) -> S {
        self.storage
    }

    /// The disk's pages are the storage's bytes cut into `spec_page_size()`
    /// pieces.
    pub proof fn lemma_stored_page(&self, page_id: PageId)
        ensures
            self.stored_page(page_id) == page_of(
                self.spec_storage().bytes(),
                self.spec_page_size(),
                page_id as nat,
            ),
    {
    }

    /// A disk manager with pages of `DEFAULT_PAGE_SIZE` bytes.
    pub fn new(storage: S) -> (r: Self)
        ensures
            r.spec_storage() == storage,
            r.spec_page_size() == DEFAULT_PAGE_SIZE,
    {
        Self { storage, page_size: PageSize { bytes: DEFAULT_PAGE_SIZE } }
    }

    /// A disk manager with pages of `page_size` bytes; a size of zero is refused.
    pub fn with_page_size(storage: S, page_size: usize) -> (r: StorageResult<Self>)
        ensures
            page_size == 0 ==> storage_result_view(r) == Err::<Self, StorageErrorView>(
                invalid_argument(zero_page_size_message()),
            ),
            page_size > 0 ==> (r matches Ok(m) && m.spec_storage() == storage
                && m.spec_page_size() == page_size),
    {
        if page_size == 0 {
            return Err(
                StorageError::InvalidArgument {
                    message: String::from_str("page_size must be greater than 0"),
                },
            );
        }
        Ok(Self { storage, page_size: PageSize { bytes: page_size } })
    }

    pub fn storage(&self) -> (r: &S)
        ensures
            *r == self.spec_storage(),
    {
        &self.storage
    }

    fn page_offset(&self, page_id: PageId) -> (r: StorageResult<u64>)
        ensures
            page_id * self.page_size.bytes <= u64::MAX ==> r == Ok::<u64, StorageError>(
                (page_id * self.page_size.bytes) as u64,
            ),
            page_id * self.page_size.bytes > u64::MAX ==> storage_result_view(r) == Err::<
                u64,
                StorageErrorView,
            >(invalid_argument(offset_overflow_message(page_id, self.page_size.bytes as nat))),
    {
        match page_id.checked_mul(self.page_size.get() as u64) {
            Some(offset) => Ok(offset),
            None => {
                let mut message = String::from_str("page offset overflow: page_id=");
                push_decimal(&mut message, page_id);
                message.append(", page_size=");
                push_decimal(&mut message, self.page_size.get() as u64);
                Err(StorageError::InvalidArgument { message })
            },
        }
    }

    fn validate_page_buffer(&self, len: usize) -> (r: StorageResult<()>)
        ensures
            len == self.page_size.bytes ==> r is Ok,
            len != self.page_size.bytes ==> storage_result_view(r) == Err::<(), StorageErrorView>(
                invalid_argument(buffer_mismatch_message(self.page_size.bytes as nat, len as nat)),
            ),
    {
        if len != self.page_size.get() {
            let mut message = String::from_str("page buffer size mismatch: expected ");
            push_decimal(&mut message, self.page_size.get() as u64);
            message.append(", actual ");
            push_decimal(&mut message, len as u64);
            return Err(StorageError::InvalidArgument { message });
        }
        Ok(())
    }

    /// How many whole pages `len` bytes of storage hold; fails with
    /// `InvalidArgument` where `len` is not a whole number of pages.
    pub fn pages_in_len(&self, len: u64) -> (r: StorageResult<u64>)
        ensures
            (len as nat) % self.spec_page_size() == 0 ==> r == Ok::<u64, StorageError>(
                (len as nat / self.spec_page_size()) as u64,
            ),
            (len as nat) % self.spec_page_size() != 0 ==> storage_result_view(r) == Err::<
                u64,
                StorageErrorView,
            >(invalid_argument(unaligned_message(len as nat, self.spec_page_size()))),
    {
        let page_size = self.page_size.get() as u64;
        if len % page_size != 0 {
            let mut message = String::from_str("storage length is not page aligned: len=");
            push_decimal(&mut message, len);
            message.append(", page_size=");
            push_decimal(&mut message, page_size);
            return Err(StorageError::InvalidArgument { message });
        }
        Ok(len / page_size)
    }

    /// The id of the page that allocation adds to `len` bytes of storage, and
    /// the storage length after it; fails with `InvalidArgument` where `len`
    /// is not a whole number of pages or the new length overflows.
    pub fn allocation_for_len(&self, len: u64) -> (r: StorageResult<(PageId, u64)>)
        ensures
            (len as nat) % self.spec_page_size() != 0 ==> storage_result_view(r) == Err::<
                (PageId, u64),
                StorageErrorView,
            >(invalid_argument(unaligned_message(len as nat, self.spec_page_size()))),
            (len as nat) % self.spec_page_size() == 0 && len + self.spec_page_size() > u64::MAX
                ==> storage_result_view(r) == Err::<(PageId, u64), StorageErrorView>(
                invalid_argument(length_overflow_message(len as nat, self.spec_page_size())),
            ),
            (len as nat) % self.spec_page_size() == 0 && len + self.spec_page_size() <= u64::MAX
                ==> r == Ok::<(PageId, u64), StorageError>(
                (
                    (len as nat / self.spec_page_size()) as u64,
                    (len + self.spec_page_size()) as u64,
                ),
            ),
    {
        let page_id = self.pages_in_len(len)?;
        let page_size = self.page_size.get() as u64;
        match len.checked_add(page_size) {
            Some(new_len) => Ok((page_id, new_len)),
            None => {
                let mut message = String::from_str("storage length overflow: len=");
                push_decimal(&mut message, len);
                message.append(", page_size=");
                push_decimal(&mut message, page_size);
                Err(StorageError::InvalidArgument { message })
            },
        }
    }
}

impl<S> DiskManager for StorageDiskManager<S> where S: StorageEngine {
    closed spec fn spec_page_size(&self) -> nat {
        self.page_size.bytes as nat
    }

    closed spec fn stored_page(&self, page_id: PageId) -> Option<Seq<u8>> {
        page_of(self.storage.bytes(), self.page_size.bytes as nat, page_id as nat)
    }

    fn page_size(&self) -> (r: usize)
        ensures
            r > 0,
    {
        self.page_size.get()
    }

    /// Fails with `InvalidArgument` where `buf` is not one page long or the
    /// page's offset overflows; otherwise reads the page's bytes from storage,
    /// and fails only as that read fails.
    fn read_page(&self, page_id: PageId, buf: &mut [u8]) -> (r: StorageResult<()>)
        ensures
            old(buf)@.len() != self.spec_page_size() ==> storage_result_view(r) == Err::<
                (),
                StorageErrorView,
            >(
                invalid_argument(
                    buffer_mismatch_message(self.spec_page_size(), old(buf)@.len()),
                ),
            ),
            old(buf)@.len() == self.spec_page_size() && page_id * self.spec_page_size() > u64::MAX
                ==> storage_result_view(r) == Err::<(), StorageErrorView>(
                invalid_argument(offset_overflow_message(page_id, self.spec_page_size())),
            ),
            old(buf)@.len() != self.spec_page_size() || page_id * self.spec_page_size() > u64::MAX
                ==> final(buf)@ == old(buf)@,
            old(buf)@.len() == self.spec_page_size() && page_id * self.spec_page_size() <= u64::MAX
                ==> (r matches Err(e) ==> S::read_refusal(
                (page_id * self.spec_page_size()) as u64,
                self.spec_page_size(),
                e@,
            )),
    {
        self.validate_page_buffer(buf.len())?;

        let offset = self.page_offset(page_id)?;

        self.storage.read_exact_at(offset, buf)
    }

    /// Fails with `InvalidArgument` where `page` is not one page long or the
    /// page's offset overflows; otherwise writes the page's bytes to storage.
    fn write_page(&mut self, page_id: PageId, page: &[u8]) -> (r: StorageResult<()>)
        ensures
            page@.len() != old(self).spec_page_size() ==> storage_result_view(r) == Err::<
                (),
                StorageErrorView,
            >(invalid_argument(buffer_mismatch_message(old(self).spec_page_size(), page@.len()))),
            page@.len() == old(self).spec_page_size() && page_id * old(self).spec_page_size() > u64::MAX
                ==> storage_result_view(r) == Err::<(), StorageErrorView>(
                invalid_argument(offset_overflow_message(page_id, old(self).spec_page_size())),
            ),
            r is Ok ==> final(self).spec_storage().bytes() == written(
                old(self).spec_storage().bytes(),
                page_id * old(self).spec_page_size(),
                page@,
            ),
            page@.len() != old(self).spec_page_size() || page_id * old(self).spec_page_size()
                > u64::MAX ==> *final(self) == *old(self),
    {
        let _page_size = self.page_size.get();
        self.validate_page_buffer(page.len())?;

        let offset = self.page_offset(page_id)?;
        assert(offset == page_id * self.page_size.bytes);

        let r = self.storage.write_exact_at(offset, page);
        proof {
            let ps = self.page_size.bytes as nat;
            let old_bytes = old(self).storage.bytes();
            let new_bytes = self.storage.bytes();
            if r is Ok {
                assert(new_bytes.subrange(offset as int, offset + ps) =~= page@);
            }
            assert forall|q: PageId|
                q != page_id && (#[trigger] old(self).stored_page(q)) is Some implies self.stored_page(
                    q,
                ) == old(self).stored_page(q) by {
                lemma_pages_apart(q as nat, page_id as nat, ps);
                assert(new_bytes.subrange(q * ps, q * ps + ps) =~= old_bytes.subrange(
                    q * ps,
                    q * ps + ps,
                ));
            }
        }
        r
    }

    /// Extends the storage by one page of zeros; fails with `InvalidArgument`
    /// where the storage length is not a whole number of pages or the new
    /// length overflows.
    fn allocate_page(&mut self) -> (r: StorageResult<PageId>)
        ensures
            r matches Ok(id) ==> id * old(self).spec_page_size() == old(self).spec_storage().bytes().len()
                && final(self).spec_storage().bytes() == resized(
                old(self).spec_storage().bytes(),
                (old(self).spec_storage().bytes().len() + old(self).spec_page_size()) as nat,
            ),
            old(self).spec_storage().bytes().len() % (old(self).spec_page_size()) != 0 ==> r is Err,
            old(self).spec_storage().bytes().len() + old(self).spec_page_size() > u64::MAX ==> r is Err,
            r is Err ==> final(self).spec_storage().bytes() == old(self).spec_storage().bytes(),
    {
        let len = self.storage.len()?;
        let (page_id, new_len) = self.allocation_for_len(len)?;
        let page_size = self.page_size.get() as u64;
        let t = self.storage.truncate(new_len);
        if t.is_err() {
            proof {
                assert forall|q: PageId| #[trigger] self.stored_page(q) == old(self).stored_page(q) by {}
            }
            return Err(t.unwrap_err());
        }
        proof {
            let ps = page_size as nat;
            let old_bytes = old(self).storage.bytes();
            let new_bytes = self.storage.bytes();
            lemma_aligned(len as nat, ps);
            assert(page_id * ps == len);
            assert(new_bytes.subrange(page_id * ps, page_id * ps + ps) =~= zero_page(ps));
            assert((page_id + 1) * ps == len + ps) by (nonlinear_arith)
                requires
                    page_id * ps == len,
            ;
            assert forall|q: PageId| q != page_id implies #[trigger] self.stored_page(q) == old(
                self,
            ).stored_page(q) by {
                lemma_page_below(q as nat, page_id as nat, ps);
                lemma_page_below(q as nat, (page_id + 1) as nat, ps);
                if q < page_id {
                    assert(new_bytes.subrange(q * ps, q * ps + ps) =~= old_bytes.subrange(
                        q * ps,
                        q * ps + ps,
                    ));
                }
            }
        }
        Ok(page_id)
    }

    /// The number of whole pages; fails with `InvalidArgument` where the
    /// storage length is not a whole number of pages.
    fn page_count(&self) -> (r: StorageResult<u64>)
        ensures
            r matches Ok(n) ==> n * self.spec_page_size() == self.spec_storage().bytes().len(),
            self.spec_storage().bytes().len() % (self.spec_page_size()) != 0 ==> r is Err,
    {
        let len = self.storage.len()?;
        let n = self.pages_in_len(len)?;
        let page_size = self.page_size.get() as u64;
        proof {
            let ps = page_size as nat;
            lemma_aligned(len as nat, ps);
            assert forall|q: PageId| #[trigger] self.stored_page(q) is Some <==> q < n by {
                lemma_page_below(q as nat, n as nat, ps);
            }
        }
        Ok(n)
    }

    fn flush(&self) -> (r: StorageResult<()>) {
        self.storage.flush()
    }

    fn sync(&self) -> (r: StorageResult<()>) {
        self.storage.sync()
    }
}

} // verus!
