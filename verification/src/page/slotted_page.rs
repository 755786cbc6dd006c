use vstd::bytes::{u16_from_le_bytes, u16_to_le_bytes, u64_from_le_bytes, u64_to_le_bytes};
use vstd::prelude::*;
use vstd::slice::slice_subrange;
use vstd::string::StringExecFns;

use crate::disk::PageId;
use crate::page::layout::{
    INVALID_PAGE_ID, PAGE_HEADER_SIZE, PAGE_MAGIC, PageHeader, SLOT_FLAG_DELETED, SLOT_FLAG_USED,
    SLOT_SIZE, Slot, header_error, initial_header, lemma_parse_put_header,
    lemma_read_after_delete, lemma_read_after_insert, page_size_error, page_type_byte,
    page_type_of_byte, parse_header, put_slot, put_u16, put_u64, slot_pos, spec_decode_page_id,
    spec_delete, spec_encode_page_id, spec_free_space, spec_init, spec_insert, spec_page_type,
    spec_read_record, spec_read_slot, spec_write_header, spec_write_slot, stored_header, u16_at,
    u64_at, well_formed_page, write_at,
};
use crate::page::{PageError, PageErrorView, PageManager, PageResult, SlotId, page_result_view};
use crate::page::laws::{
    lemma_delete_keeps_other_records, lemma_delete_keeps_well_formed, lemma_init_page,
    lemma_insert_keeps_other_records, lemma_insert_keeps_well_formed, lemma_updates_keep_page_type,
};
use crate::text::push_decimal;

verus! {

/// The kind of content a page holds.
#[derive(Debug, Clone, Copy, PartialEq, Eq, Structural)]
pub enum PageType {
    Free,
    TableLeaf,
    TableOverflow,
    IndexInternal,
    IndexLeaf,
}

impl TryFrom<u8> for PageType {
    type Error = PageError;

    fn try_from(value: u8) -> (r: PageResult<Self>) {
        match value {
            0 => Ok(PageType::Free),
            1 => Ok(PageType::TableLeaf),
            2 => Ok(PageType::TableOverflow),
            3 => Ok(PageType::IndexInternal),
            4 => Ok(PageType::IndexLeaf),
            actual => Err(PageError::InvalidPageType { actual }),
        }
    }
}

impl vstd::std_specs::convert::TryFromSpecImpl<u8> for PageType {
    open spec fn obeys_try_from_spec() -> bool {
        true
    }

    open spec fn try_from_spec(v: u8) -> Result<Self, PageError> {
        match page_type_of_byte(v) {
            Some(t) => Ok(t),
            None => Err(PageError::InvalidPageType { actual: v }),
        }
    }
}

impl From<PageType> for u8 {
    fn from(value: PageType) -> (r: u8) {
        match value {
            PageType::Free => 0,
            PageType::TableLeaf => 1,
            PageType::TableOverflow => 2,
            PageType::IndexInternal => 3,
            PageType::IndexLeaf => 4,
        }
    }
}

impl vstd::std_specs::convert::FromSpecImpl<PageType> for u8 {
    open spec fn obeys_from_spec() -> bool {
        true
    }

    open spec fn from_spec(v: PageType) -> u8 {
        page_type_byte(v)
    }
}

/// Stores variable-length records in slotted pages (see `page::layout`).
#[derive(Debug, Default, Clone, Copy)]
pub struct SlottedPageManager;

fn encode_page_id(page_id: Option<PageId>) -> (v: u64)
    ensures
        v == spec_encode_page_id(page_id),
{
    match page_id {
        Some(v) => v,
        None => INVALID_PAGE_ID,
    }
}

fn decode_page_id(value: u64) -> (r: Option<PageId>)
    ensures
        r == spec_decode_page_id(value),
{
    if value == INVALID_PAGE_ID {
        None
    } else {
        Some(value)
    }
}

fn read_u16(buf: &[u8], offset: usize) -> (v: u16)
    requires
        offset + 2 <= buf@.len(),
    ensures
        v == u16_at(buf@, offset as int),
{
    let _len = buf.len();
    u16_from_le_bytes(slice_subrange(buf, offset, offset + 2))
}

fn write_u16(buf: &mut [u8], offset: usize, value: u16)
    requires
        offset + 2 <= old(buf)@.len(),
    ensures
        final(buf)@ == put_u16(old(buf)@, offset as int, value),
{
    let bytes = u16_to_le_bytes(value);
    buf[offset] = bytes[0];
    buf[offset + 1] = bytes[1];
    assert(buf@ =~= put_u16(old(buf)@, offset as int, value));
}

fn read_u64(buf: &[u8], offset: usize) -> (v: u64)
    requires
        offset + 8 <= buf@.len(),
    ensures
        v == u64_at(buf@, offset as int),
{
    let _len = buf.len();
    u64_from_le_bytes(slice_subrange(buf, offset, offset + 8))
}

fn write_u64(buf: &mut [u8], offset: usize, value: u64)
    requires
        offset + 8 <= old(buf)@.len(),
    ensures
        final(buf)@ == put_u64(old(buf)@, offset as int, value),
{
    let bytes = u64_to_le_bytes(value);
    let _len = buf.len();
    let mut i: usize = 0;
    while i < 8
        invariant
            0 <= i <= 8,
            offset + 8 <= buf@.len(),
            buf@.len() == old(buf)@.len(),
            buf@.len() == _len,
            bytes@.len() == 8,
            buf@ == write_at(old(buf)@, offset as int, bytes@.subrange(0, i as int)),
        decreases 8 - i,
    {
        buf[offset + i] = bytes[i];
        i = i + 1;
        assert(buf@ =~= write_at(old(buf)@, offset as int, bytes@.subrange(0, i as int)));
    }
    assert(bytes@.subrange(0, 8) =~= bytes@);
}

impl SlottedPageManager {
    pub fn new() -> (r: Self) {
        Self
    }

    fn validate_page_size(&self, page: &[u8]) -> (r: PageResult<()>)
        ensures
            page_result_view(r) == match page_size_error(page@.len()) {
                Some(e) => Err(e),
                None => Ok(()),
            },
    {
        let min_size = PAGE_HEADER_SIZE + SLOT_SIZE;

        if page.len() < min_size {
            return Err(PageError::InvalidPageSize { expected_min: min_size, actual: page.len() });
        }
        if page.len() > 65535 {
            return Err(PageError::InvalidPageSize { expected_min: 0, actual: page.len() });
        }
        Ok(())
    }

    fn read_header(&self, page: &[u8]) -> (r: PageResult<PageHeader>)
        ensures
            page_result_view(r) == parse_header(page@),
    {
        self.validate_page_size(page)?;

        let magic = read_u16(page, 0);
        if magic != PAGE_MAGIC {
            return Err(PageError::InvalidMagic { actual: magic });
        }

        let page_type_raw = page[10];
        let page_type = PageType::try_from(page_type_raw)?;

        let header = PageHeader {
            page_id: read_u64(page, 2),
            page_type,
            slot_count: read_u16(page, 11),
            free_start: read_u16(page, 13),
            free_end: read_u16(page, 15),
            next_page_id: decode_page_id(read_u64(page, 17)),
        };
        assert(header == stored_header(page@, page_type));

        self.validate_header(page, &header)?;

        Ok(header)
    }

    fn write_header(&self, page: &mut [u8], header: &PageHeader) -> (r: PageResult<()>)
        ensures
            (final(page)@, page_result_view(r)) == spec_write_header(old(page)@, *header),
    {
        self.validate_page_size(page)?;
        self.validate_header(page, header)?;

        write_u16(page, 0, PAGE_MAGIC);
        write_u64(page, 2, header.page_id);
        page[10] = header.page_type.into();
        write_u16(page, 11, header.slot_count);
        write_u16(page, 13, header.free_start);
        write_u16(page, 15, header.free_end);
        write_u64(page, 17, encode_page_id(header.next_page_id));
        proof {
            let p0 = put_u16(old(page)@, 0, PAGE_MAGIC);
            let p1 = put_u64(p0, 2, header.page_id);
            let p2 = write_at(p1, 10, seq![page_type_byte(header.page_type)]);
            assert(p1.update(10, page_type_byte(header.page_type)) =~= p2);
        }
        Ok(())
    }

    fn validate_header(&self, page: &[u8], header: &PageHeader) -> (r: PageResult<()>)
        ensures
            page_result_view(r) == match header_error(page@.len(), *header) {
                Some(e) => Err(e),
                None => Ok(()),
            },
    {
        let page_len = page.len();

        if header.free_start as usize > header.free_end as usize {
            let mut message = String::from_str("free_start must be <= free_end: free_start=");
            push_decimal(&mut message, header.free_start as u64);
            message.append(", free_end=");
            push_decimal(&mut message, header.free_end as u64);
            return Err(PageError::CorruptedPage { message });
        }
        if header.free_end as usize > page_len {
            let mut message = String::from_str("free_end must be <= page size: free_end=");
            push_decimal(&mut message, header.free_end as u64);
            message.append(", page_size=");
            push_decimal(&mut message, page_len as u64);
            return Err(PageError::CorruptedPage { message });
        }
        let expected_free_start = PAGE_HEADER_SIZE + header.slot_count as usize * SLOT_SIZE;

        if header.free_start as usize != expected_free_start {
            let mut message = String::from_str("invalid free_start: expected=");
            push_decimal(&mut message, expected_free_start as u64);
            message.append(", actual=");
            push_decimal(&mut message, header.free_start as u64);
            return Err(PageError::CorruptedPage { message });
        }
        Ok(())
    }

    fn slot_offset(&self, slot_id: SlotId) -> (r: usize)
        ensures
            r == slot_pos(slot_id as int),
    {
        PAGE_HEADER_SIZE + slot_id as usize * SLOT_SIZE
    }

    fn read_slot(&self, page: &[u8], slot_id: SlotId) -> (r: PageResult<Slot>)
        ensures
            page_result_view(r) == spec_read_slot(page@, slot_id),
    {
        let header = self.read_header(page)?;

        if slot_id >= header.slot_count {
            return Err(PageError::InvalidSlotId { slot_id, slot_count: header.slot_count });
        }
        let offset = self.slot_offset(slot_id);

        Ok(Slot { offset: read_u16(page, offset), len: read_u16(page, offset + 2), flags: page[offset + 4] })
    }

    fn write_slot(&self, page: &mut [u8], slot_id: SlotId, slot: &Slot) -> (r: PageResult<()>)
        ensures
            (final(page)@, page_result_view(r)) == spec_write_slot(old(page)@, slot_id, *slot),
    {
        let header = self.read_header(page)?;

        if slot_id >= header.slot_count {
            return Err(PageError::InvalidSlotId { slot_id, slot_count: header.slot_count });
        }
        let offset = self.slot_offset(slot_id);

        write_u16(page, offset, slot.offset);
        write_u16(page, offset + 2, slot.len);
        page[offset + 4] = slot.flags;
        proof {
            let q = put_u16(put_u16(old(page)@, offset as int, slot.offset), offset + 2, slot.len);
            assert(q.update(offset + 4, slot.flags) =~= put_slot(old(page)@, slot_id as int, *slot));
        }
        Ok(())
    }
}

impl PageManager for SlottedPageManager {
    open spec fn spec_init_page(&self, page: Seq<u8>, page_id: PageId, page_type: PageType) -> (
        Seq<u8>,
        Result<(), PageErrorView>,
    ) {
        spec_init(page, page_id, page_type)
    }

    open spec fn spec_page_type(&self, page: Seq<u8>) -> Result<PageType, PageErrorView> {
        spec_page_type(page)
    }

    open spec fn spec_free_space_size(&self, page: Seq<u8>) -> Result<usize, PageErrorView> {
        spec_free_space(page)
    }

    open spec fn spec_insert_record(&self, page: Seq<u8>, record: Seq<u8>) -> (
        Seq<u8>,
        Result<SlotId, PageErrorView>,
    ) {
        spec_insert(page, record)
    }

    open spec fn spec_read_record(&self, page: Seq<u8>, slot_id: SlotId) -> Result<
        Seq<u8>,
        PageErrorView,
    > {
        spec_read_record(page, slot_id)
    }

    open spec fn spec_delete_record(&self, page: Seq<u8>, slot_id: SlotId) -> (
        Seq<u8>,
        Result<(), PageErrorView>,
    ) {
        spec_delete(page, slot_id)
    }

    open spec fn well_formed(&self, page: Seq<u8>) -> bool {
        well_formed_page(page)
    }

    fn init_page(&self, page: &mut [u8], page_id: PageId, page_type: PageType) -> (r: PageResult<
        (),
    >) {
        self.validate_page_size(page)?;

        let len = page.len();
        let mut i: usize = 0;
        while i < len
            invariant
                len == page@.len(),
                len == old(page)@.len(),
                0 <= i <= len,
                forall|j: int| 0 <= j < i ==> page@[j] == 0u8,
            decreases len - i,
        {
            page[i] = 0;
            i = i + 1;
        }
        assert(page@ =~= Seq::new(len as nat, |j: int| 0u8));

        let header = PageHeader {
            page_id,
            page_type,
            slot_count: 0,
            free_start: PAGE_HEADER_SIZE as u16,
            free_end: page.len() as u16,
            next_page_id: None,
        };
        assert(header == initial_header(page_id, page_type, len as nat));
        self.write_header(page, &header)
    }

    fn page_type(&self, page: &[u8]) -> (r: PageResult<PageType>) {
        Ok(self.read_header(page)?.page_type)
    }

    fn free_space_size(&self, page: &[u8]) -> (r: PageResult<usize>) {
        let header = self.read_header(page)?;

        Ok(header.free_end as usize - header.free_start as usize)
    }

    fn insert_record(&self, page: &mut [u8], record: &[u8]) -> (r: PageResult<SlotId>) {
        self.validate_page_size(page)?;

        if record.len() > 65535 {
            let available = self.free_space_size(page)?;
            return Err(PageError::NotEnoughSpace { required: record.len(), available });
        }
        let mut header = self.read_header(page)?;

        let required = SLOT_SIZE + record.len();
        let available = self.free_space_size(page)?;

        if required > available {
            return Err(PageError::NotEnoughSpace { required, available });
        }
        let ghost h = header;
        let slot_id = header.slot_count;

        // Records are packed from the end of the page towards its start.
        let record_start = header.free_end as usize - record.len();
        let record_end = header.free_end as usize;

        let mut i: usize = 0;
        while i < record.len()
            invariant
                0 <= i <= record@.len(),
                record_start + record@.len() == record_end,
                record_end <= old(page)@.len(),
                page@ == write_at(old(page)@, record_start as int, record@.subrange(0, i as int)),
            decreases record@.len() - i,
        {
            page[record_start + i] = record[i];
            i = i + 1;
            assert(page@ =~= write_at(
                old(page)@,
                record_start as int,
                record@.subrange(0, i as int),
            ));
        }
        assert(record@.subrange(0, record@.len() as int) =~= record@);

        header.slot_count = header.slot_count + 1;
        header.free_start = header.free_start + SLOT_SIZE as u16;
        header.free_end = record_start as u16;

        let ghost p1 = page@;
        self.write_header(page, &header)?;
        proof {
            lemma_parse_put_header(p1, header);
        }

        let slot = Slot { offset: record_start as u16, len: record.len() as u16, flags: SLOT_FLAG_USED };

        self.write_slot(page, slot_id, &slot)?;

        Ok(slot_id)
    }

    fn read_record<'a>(&self, page: &'a [u8], slot_id: SlotId) -> (r: PageResult<&'a [u8]>) {
        let slot = self.read_slot(page, slot_id)?;

        if slot.flags == SLOT_FLAG_DELETED {
            return Err(PageError::DeletedSlot { slot_id });
        }
        if slot.flags != SLOT_FLAG_USED {
            let mut message = String::from_str("invalid slot flags: ");
            push_decimal(&mut message, slot.flags as u64);
            return Err(PageError::CorruptedPage { message });
        }
        let start = slot.offset as usize;
        let end = start + slot.len as usize;

        if end > page.len() {
            let mut message = String::from_str("record range is out of page: start=");
            push_decimal(&mut message, start as u64);
            message.append(", end=");
            push_decimal(&mut message, end as u64);
            message.append(", page_size=");
            push_decimal(&mut message, page.len() as u64);
            return Err(PageError::CorruptedPage { message });
        }
        Ok(slice_subrange(page, start, end))
    }

    fn delete_record(&self, page: &mut [u8], slot_id: SlotId) -> (r: PageResult<()>) {
        let mut slot = self.read_slot(page, slot_id)?;

        if slot.flags == SLOT_FLAG_DELETED {
            return Err(PageError::DeletedSlot { slot_id });
        }
        slot.flags = SLOT_FLAG_DELETED;

        self.write_slot(page, slot_id, &slot)
    }

    proof fn lemma_read_after_insert(&self, page: Seq<u8>, record: Seq<u8>) {
        lemma_read_after_insert(page, record);
    }

    proof fn lemma_read_after_delete(&self, page: Seq<u8>, slot_id: SlotId) {
        lemma_read_after_delete(page, slot_id);
    }

    proof fn lemma_insert_keeps_page_type(&self, page: Seq<u8>, record: Seq<u8>) {
        lemma_updates_keep_page_type(page, record, 0);
    }

    proof fn lemma_delete_keeps_page_type(&self, page: Seq<u8>, slot_id: SlotId) {
        lemma_updates_keep_page_type(page, Seq::empty(), slot_id);
    }

    proof fn lemma_insert_keeps_other_records(&self, page: Seq<u8>, record: Seq<u8>, slot_id: SlotId) {
        lemma_insert_keeps_other_records(page, record, slot_id);
    }

    proof fn lemma_delete_keeps_other_records(&self, page: Seq<u8>, slot_id: SlotId, other: SlotId) {
        lemma_delete_keeps_other_records(page, slot_id, other);
    }

    proof fn lemma_updates_keep_well_formed(
        &self,
        page: Seq<u8>,
        page_id: PageId,
        page_type: PageType,
        record: Seq<u8>,
        slot_id: SlotId,
    ) {
        if spec_init(page, page_id, page_type).1 is Ok {
            lemma_init_page(page, page_id, page_type, 0);
        }
        if well_formed_page(page) && spec_insert(page, record).1 is Ok {
            lemma_insert_keeps_well_formed(page, record);
        }
        if well_formed_page(page) && spec_delete(page, slot_id).1 is Ok {
            lemma_delete_keeps_well_formed(page, slot_id);
        }
    }

    proof fn lemma_init_page_type(&self, page: Seq<u8>, page_id: PageId, page_type: PageType) {
        lemma_init_page(page, page_id, page_type, 0);
    }
}

} // verus!
