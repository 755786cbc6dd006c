use vstd::prelude::*;

use crate::disk::PageId;
use crate::page::SlotId;

verus! {

/// Where a record lives: a page and a slot in it.
#[derive(Debug, Clone, Copy, PartialEq, Eq, Hash, Structural)]
pub struct RecordId {
    pub page_id: PageId,
    pub slot_id: SlotId,
}

impl RecordId {
    pub fn new(page_id: PageId, slot_id: SlotId) -> (r: Self)
        ensures
            r.page_id == page_id,
            r.slot_id == slot_id,
    {
        Self { page_id, slot_id }
    }

    pub fn page_id(&self) -> (r: PageId)
        ensures
            r == self.page_id,
    {
        self.page_id
    }

    pub fn slot_id(&self) -> (r: SlotId)
        ensures
            r == self.slot_id,
    {
        self.slot_id
    }
}

} // verus!
