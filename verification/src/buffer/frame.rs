use vstd::prelude::*;

use crate::disk::PageId;

verus! {

/// What a buffer frame holds.
pub struct FrameView {
    pub page_id: PageId,
    pub data: Seq<u8>,
    pub pin_count: nat,
    pub is_dirty: bool,
}

/// One cached page: its bytes, how many users hold it, and whether it differs
/// from what was last written to disk.
#[derive(Debug, Clone)]
pub struct BufferFrame {
    page_id: PageId,
    data: Vec<u8>,
    pin_count: usize,
    is_dirty: bool,
}

impl View for BufferFrame {
    type V = FrameView;

    closed spec fn view(&self) -> FrameView {
        FrameView {
            page_id: self.page_id,
            data: self.data@,
            pin_count: self.pin_count as nat,
            is_dirty: self.is_dirty,
        }
    }
}

impl BufferFrame {
    /// An unpinned, clean frame for page `page_id` holding `data`.
    pub fn new(page_id: PageId, data: Vec<u8>) -> (r: Self)
        ensures
            r@ == (FrameView { page_id, data: data@, pin_count: 0, is_dirty: false }),
    {
        Self { page_id, data, pin_count: 0, is_dirty: false }
    }

    pub fn page_id(&self) -> (r: PageId)
        ensures
            r == self@.page_id,
    {
        self.page_id
    }

    pub fn data(&self) -> (r: &[u8])
        ensures
            r@ == self@.data,
    {
        self.data.as_slice()
    }

    /// Replaces the bytes and marks the frame dirty.
    pub fn set_data(&mut self, data: Vec<u8>)
        ensures
            final(self)@ == (FrameView { data: data@, is_dirty: true, ..old(self)@ }),
    {
        self.data = data;
        self.is_dirty = true;
    }

    pub fn pin(&mut self)
        requires
            old(self)@.pin_count < usize::MAX,
        ensures
            final(self)@ == (FrameView { pin_count: old(self)@.pin_count + 1, ..old(self)@ }),
    {
        self.pin_count = self.pin_count + 1;
    }

    pub fn unpin(&mut self)
        requires
            old(self)@.pin_count > 0,
        ensures
            final(self)@ == (FrameView { pin_count: (old(self)@.pin_count - 1) as nat, ..old(self)@ }),
    {
        self.pin_count = self.pin_count - 1;
    }

    pub fn pin_count(&self) -> (r: usize)
        ensures
            r == self@.pin_count,
    {
        self.pin_count
    }

    pub fn is_dirty(&self) -> (r: bool)
        ensures
            r == self@.is_dirty,
    {
        self.is_dirty
    }

    pub fn set_dirty(&mut self, is_dirty: bool)
        ensures
            final(self)@ == (FrameView { is_dirty, ..old(self)@ }),
    {
        self.is_dirty = is_dirty;
    }

    /// A frame can leave the pool only when nobody holds it.
    pub fn is_evictable(&self) -> (r: bool)
        ensures
            r == (self@.pin_count == 0),
    {
        self.pin_count == 0
    }
}

} // verus!
