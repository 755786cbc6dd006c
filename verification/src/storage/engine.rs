use vstd::prelude::*;

use crate::storage::{StorageErrorView, StorageResult};

verus! {

/// `s` after `b` is written at `off`: the gap between the old end and `off`,
/// if any, is filled with zeros. Writing nothing changes nothing.
pub open spec fn written(s: Seq<u8>, off: int, b: Seq<u8>) -> Seq<u8> {
    if b.len() == 0 {
        s
    } else {
        Seq::new(
            if off + b.len() > s.len() {
                (off + b.len()) as nat
            } else {
                s.len()
            },
            |i: int|
                if off <= i < off + b.len() {
                    b[i - off]
                } else if i < s.len() {
                    s[i]
                } else {
                    0u8
                },
        )
    }
}

/// `new` agrees with `old` on every byte of `old` outside `[off, off + len)`,
/// and is no shorter.
pub open spec fn untouched_outside(old: Seq<u8>, new: Seq<u8>, off: int, len: int) -> bool {
    &&& new.len() >= old.len()
    &&& forall|i: int| 0 <= i < old.len() && !(off <= i < off + len) ==> #[trigger] new[i] == old[i]
}

/// `s` cut or extended with zeros to `size` bytes.
pub open spec fn resized(s: Seq<u8>, size: nat) -> Seq<u8> {
    Seq::new(size, |i: int| if i < s.len() { s[i] } else { 0u8 })
}

/// A byte store addressed by offset, such as a file.
///
/// `bytes` is what the store holds; `read_refusal(offset, len, e)` says which
/// errors a read of `len` bytes at `offset` may give. A write that fails may have moved part of
/// its bytes, but none outside the range it was given; a truncation that fails
/// changes nothing.
///
/// Each implementation defines the spec functions; their default bodies leave
/// them unspecified, for implementations outside the verified code. Such an
/// implementation (a file, say) has its contents unmodelled: `bytes()` is then
/// one unknown value, and the contracts of its methods are not checked.
pub trait StorageEngine {
    closed spec fn bytes(&self) -> Seq<u8> {
        arbitrary()
    }

    /// `e` is an error this store may answer to a read of `len` bytes at
    /// `offset`.
    closed spec fn read_refusal(offset: u64, len: nat, e: StorageErrorView) -> bool {
        arbitrary()
    }

    /// Fills `buf` with the bytes at `offset`; succeeds only where they all exist.
    fn read_exact_at(&self, offset: u64, buf: &mut [u8]) -> (r: StorageResult<()>)
        ensures
            r matches Err(e) ==> Self::read_refusal(offset, old(buf)@.len(), e@),
            final(buf)@.len() == old(buf)@.len(),
            r is Ok ==> offset + old(buf)@.len() <= self.bytes().len() && final(buf)@
                == self.bytes().subrange(offset as int, offset + old(buf)@.len()),
    ;

    /// Writes all of `buf` at `offset`.
    fn write_exact_at(&mut self, offset: u64, buf: &[u8]) -> (r: StorageResult<()>)
        ensures
            untouched_outside(old(self).bytes(), final(self).bytes(), offset as int, buf@.len() as int),
            r is Ok ==> final(self).bytes() == written(old(self).bytes(), offset as int, buf@),
    ;

    fn flush(&self) -> (r: StorageResult<()>);

    fn sync(&self) -> (r: StorageResult<()>);

    fn len(&self) -> (r: StorageResult<u64>)
        ensures
            r matches Ok(n) ==> n == self.bytes().len(),
    ;

    /// Cuts or extends the store to `size` bytes.
    fn truncate(&mut self, size: u64) -> (r: StorageResult<()>)
        ensures
            r is Ok ==> final(self).bytes() == resized(old(self).bytes(), size as nat),
            r is Err ==> final(self).bytes() == old(self).bytes(),
    ;

    fn is_empty(&self) -> (r: StorageResult<bool>)
        ensures
            r matches Ok(b) ==> b == (self.bytes().len() == 0),
    {
        Ok(self.len()? == 0)
    }
}

} // verus!
