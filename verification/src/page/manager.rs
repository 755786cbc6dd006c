use vstd::prelude::*;

use crate::disk::PageId;
use crate::page::{PageErrorView, PageResult, PageType, page_result_view};

verus! {

pub type SlotId = u16;

/// A read of record bytes, with its error taken by its view.
pub open spec fn bytes_result_view(r: PageResult<&[u8]>) -> Result<Seq<u8>, PageErrorView> {
    match r {
        Ok(s) => Ok(s@),
        Err(e) => Err(e@),
    }
}

/// The layout of records inside a page.
///
/// Each operation is described by a spec function on the page's bytes; the
/// laws below hold of every implementation.
pub trait PageManager {
    /// Initialising `page`: the new bytes and the outcome.
    spec fn spec_init_page(&self, page: Seq<u8>, page_id: PageId, page_type: PageType) -> (
        Seq<u8>,
        Result<(), PageErrorView>,
    );

    spec fn spec_page_type(&self, page: Seq<u8>) -> Result<PageType, PageErrorView>;

    spec fn spec_free_space_size(&self, page: Seq<u8>) -> Result<usize, PageErrorView>;

    /// Inserting `record`: the new bytes and the outcome.
    spec fn spec_insert_record(&self, page: Seq<u8>, record: Seq<u8>) -> (
        Seq<u8>,
        Result<SlotId, PageErrorView>,
    );

    spec fn spec_read_record(&self, page: Seq<u8>, slot_id: SlotId) -> Result<
        Seq<u8>,
        PageErrorView,
    >;

    /// Deleting a record: the new bytes and the outcome.
    spec fn spec_delete_record(&self, page: Seq<u8>, slot_id: SlotId) -> (
        Seq<u8>,
        Result<(), PageErrorView>,
    );

    /// The pages on which the laws about untouched records hold.
    spec fn well_formed(&self, page: Seq<u8>) -> bool;

    fn init_page(&self, page: &mut [u8], page_id: PageId, page_type: PageType) -> (r: PageResult<
        (),
    >)
        ensures
            (final(page)@, page_result_view(r)) == self.spec_init_page(
                old(page)@,
                page_id,
                page_type,
            ),
            final(page)@.len() == old(page)@.len(),
    ;

    fn page_type(&self, page: &[u8]) -> (r: PageResult<PageType>)
        ensures
            page_result_view(r) == self.spec_page_type(page@),
    ;

    fn free_space_size(&self, page: &[u8]) -> (r: PageResult<usize>)
        ensures
            page_result_view(r) == self.spec_free_space_size(page@),
    ;

    fn insert_record(&self, page: &mut [u8], record: &[u8]) -> (r: PageResult<SlotId>)
        ensures
            (final(page)@, page_result_view(r)) == self.spec_insert_record(old(page)@, record@),
            final(page)@.len() == old(page)@.len(),
    ;

    fn read_record<'a>(&self, page: &'a [u8], slot_id: SlotId) -> (r: PageResult<&'a [u8]>)
        ensures
            bytes_result_view(r) == self.spec_read_record(page@, slot_id),
    ;

    fn delete_record(&self, page: &mut [u8], slot_id: SlotId) -> (r: PageResult<()>)
        ensures
            (final(page)@, page_result_view(r)) == self.spec_delete_record(old(page)@, slot_id),
            final(page)@.len() == old(page)@.len(),
    ;

    /// A record that was inserted reads back as itself.
    proof fn lemma_read_after_insert(&self, page: Seq<u8>, record: Seq<u8>)
        requires
            self.spec_insert_record(page, record).1 is Ok,
        ensures
            self.spec_read_record(
                self.spec_insert_record(page, record).0,
                self.spec_insert_record(page, record).1->Ok_0,
            ) == Ok::<Seq<u8>, PageErrorView>(record),
    ;

    /// A record that was deleted reads as deleted.
    proof fn lemma_read_after_delete(&self, page: Seq<u8>, slot_id: SlotId)
        requires
            self.spec_delete_record(page, slot_id).1 is Ok,
        ensures
            self.spec_read_record(self.spec_delete_record(page, slot_id).0, slot_id) == Err::<
                Seq<u8>,
                PageErrorView,
            >(PageErrorView::DeletedSlot { slot_id }),
    ;

    /// Inserting a record keeps the page type.
    proof fn lemma_insert_keeps_page_type(&self, page: Seq<u8>, record: Seq<u8>)
        requires
            self.spec_insert_record(page, record).1 is Ok,
        ensures
            self.spec_page_type(self.spec_insert_record(page, record).0) == self.spec_page_type(page),
    ;

    /// Deleting a record keeps the page type.
    proof fn lemma_delete_keeps_page_type(&self, page: Seq<u8>, slot_id: SlotId)
        requires
            self.spec_delete_record(page, slot_id).1 is Ok,
        ensures
            self.spec_page_type(self.spec_delete_record(page, slot_id).0) == self.spec_page_type(page),
    ;

    /// On a well-formed page, inserting a record leaves the records that could
    /// be read before as they were.
    proof fn lemma_insert_keeps_other_records(&self, page: Seq<u8>, record: Seq<u8>, slot_id: SlotId)
        requires
            self.well_formed(page),
            self.spec_insert_record(page, record).1 is Ok,
            self.spec_read_record(page, slot_id) is Ok,
        ensures
            self.spec_read_record(self.spec_insert_record(page, record).0, slot_id) == self.spec_read_record(page, slot_id),
    ;

    /// On a well-formed page, deleting a record leaves the other records as
    /// they read before.
    proof fn lemma_delete_keeps_other_records(&self, page: Seq<u8>, slot_id: SlotId, other: SlotId)
        requires
            self.well_formed(page),
            self.spec_delete_record(page, slot_id).1 is Ok,
            other != slot_id,
        ensures
            self.spec_read_record(self.spec_delete_record(page, slot_id).0, other) == self.spec_read_record(page, other),
    ;

    /// Initialisation, insertion and deletion keep pages well formed.
    proof fn lemma_updates_keep_well_formed(&self, page: Seq<u8>, page_id: PageId, page_type: PageType, record: Seq<u8>, slot_id: SlotId)
        ensures
            self.spec_init_page(page, page_id, page_type).1 is Ok ==> self.well_formed(self.spec_init_page(page, page_id, page_type).0),
            self.well_formed(page) && self.spec_insert_record(page, record).1 is Ok ==> self.well_formed(self.spec_insert_record(page, record).0),
            self.well_formed(page) && self.spec_delete_record(page, slot_id).1 is Ok ==> self.well_formed(self.spec_delete_record(page, slot_id).0),
    ;

    /// A freshly initialised page has the requested type.
    proof fn lemma_init_page_type(&self, page: Seq<u8>, page_id: PageId, page_type: PageType)
        requires
            self.spec_init_page(page, page_id, page_type).1 is Ok,
        ensures
            self.spec_page_type(self.spec_init_page(page, page_id, page_type).0) == Ok::<PageType, PageErrorView>(page_type),
    ;
}

} // verus!
