//! The decisions of a loop that moves bytes between a buffer and a store in
//! as many system calls as it takes. The caller performs each call and hands
//! the number of bytes it moved to these functions.
use vstd::prelude::*;

use crate::storage::{StorageError, StorageErrorView, StorageResult, storage_result_view};

verus! {

/// Where the next call of a transfer that started at `offset` goes, once
/// `done` bytes have moved.
pub fn transfer_position(offset: u64, done: usize) -> (r: u64)
    requires
        offset + done <= u64::MAX,
    ensures
        r == offset + done,
{
    offset + done as u64
}

/// A read of `expected` bytes at `offset` that has `done` of them has just
/// read `n` more: it goes on with `done + n` bytes, or, when the store had no
/// more to give, fails with the count it reached.
pub fn read_progress(offset: u64, expected: usize, done: usize, n: usize) -> (r: StorageResult<
    usize,
>)
    requires
        done < expected,
        done + n <= expected,
    ensures
        n > 0 ==> r == Ok::<usize, StorageError>((done + n) as usize),
        n == 0 ==> storage_result_view(r) == Err::<usize, StorageErrorView>(
            StorageErrorView::Unexpected { offset, expected, actual: done },
        ),
{
    if n == 0 {
        return Err(StorageError::Unexpected { offset, expected, actual: done });
    }
    Ok(done + n)
}

/// A write of `expected` bytes at `offset` that has written `done` of them
/// has just written `n` more: it goes on with `done + n` bytes, or, when the
/// store took nothing, fails at the position it reached, with the bytes that
/// were left.
pub fn write_progress(offset: u64, expected: usize, done: usize, n: usize) -> (r: StorageResult<
    usize,
>)
    requires
        done < expected,
        done + n <= expected,
        offset + done <= u64::MAX,
    ensures
        n > 0 ==> r == Ok::<usize, StorageError>((done + n) as usize),
        n == 0 ==> storage_result_view(r) == Err::<usize, StorageErrorView>(
            StorageErrorView::Unexpected {
                offset: (offset + done) as u64,
                expected: (expected - done) as usize,
                actual: done,
            },
        ),
{
    if n == 0 {
        return Err(
            StorageError::Unexpected {
                offset: transfer_position(offset, done),
                expected: expected - done,
                actual: done,
            },
        );
    }
    Ok(done + n)
}

} // verus!
