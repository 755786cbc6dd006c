//! The byte layout of a slotted page, stated as functions on byte sequences.
//!
//! A page starts with a header of `PAGE_HEADER_SIZE` bytes:
//!
//! | bytes    | field                                   |
//! |----------|-----------------------------------------|
//! | 0..2     | magic number `PAGE_MAGIC`, little endian |
//! | 2..10    | page id                                 |
//! | 10       | page type                               |
//! | 11..13   | slot count                              |
//! | 13..15   | start of the free space                 |
//! | 15..17   | end of the free space                   |
//! | 17..25   | next page id (`INVALID_PAGE_ID` for none) |
//!
//! The slot directory follows the header, `SLOT_SIZE` bytes per slot
//! (record offset, record length, flags). Records are packed from the end of
//! the page towards its start.
use vstd::bytes::{
    lemma_auto_spec_u16_to_from_le_bytes, lemma_auto_spec_u64_to_from_le_bytes,
    spec_u16_from_le_bytes, spec_u16_to_le_bytes, spec_u64_from_le_bytes, spec_u64_to_le_bytes,
};
use vstd::prelude::*;

use crate::disk::PageId;
use crate::page::error::PageErrorView;
use crate::page::slotted_page::PageType;
use crate::text::decimal;

verus! {

pub const PAGE_MAGIC: u16 = 0xDB01;

pub const INVALID_PAGE_ID: u64 = 0xFFFF_FFFF_FFFF_FFFFu64;

pub const PAGE_HEADER_SIZE: usize = 25;

pub const SLOT_SIZE: usize = 5;

pub const SLOT_FLAG_USED: u8 = 1;

pub const SLOT_FLAG_DELETED: u8 = 2;

/// The decoded header of a slotted page.
#[derive(Debug, Clone, Copy)]
pub struct PageHeader {
    pub page_id: PageId,
    pub page_type: PageType,
    pub slot_count: u16,
    pub free_start: u16,
    pub free_end: u16,
    pub next_page_id: Option<PageId>,
}

/// One entry of the slot directory.
#[derive(Debug, Clone, Copy)]
pub struct Slot {
    pub offset: u16,
    pub len: u16,
    pub flags: u8,
}

/// `s` with the bytes `b` written from position `off` on.
pub open spec fn write_at(s: Seq<u8>, off: int, b: Seq<u8>) -> Seq<u8> {
    Seq::new(s.len(), |i: int| if off <= i < off + b.len() { b[i - off] } else { s[i] })
}

/// The little-endian `u16` stored at `off`.
pub open spec fn u16_at(s: Seq<u8>, off: int) -> u16 {
    spec_u16_from_le_bytes(s.subrange(off, off + 2))
}

/// The little-endian `u64` stored at `off`.
pub open spec fn u64_at(s: Seq<u8>, off: int) -> u64 {
    spec_u64_from_le_bytes(s.subrange(off, off + 8))
}

pub open spec fn put_u16(s: Seq<u8>, off: int, v: u16) -> Seq<u8> {
    write_at(s, off, spec_u16_to_le_bytes(v))
}

pub open spec fn put_u64(s: Seq<u8>, off: int, v: u64) -> Seq<u8> {
    write_at(s, off, spec_u64_to_le_bytes(v))
}

/// The byte that encodes a page type.
pub open spec fn page_type_byte(t: PageType) -> u8 {
    match t {
        PageType::Free => 0,
        PageType::TableLeaf => 1,
        PageType::TableOverflow => 2,
        PageType::IndexInternal => 3,
        PageType::IndexLeaf => 4,
    }
}

/// The page type that a byte encodes, if any.
pub open spec fn page_type_of_byte(b: u8) -> Option<PageType> {
    if b == 0 {
        Some(PageType::Free)
    } else if b == 1 {
        Some(PageType::TableLeaf)
    } else if b == 2 {
        Some(PageType::TableOverflow)
    } else if b == 3 {
        Some(PageType::IndexInternal)
    } else if b == 4 {
        Some(PageType::IndexLeaf)
    } else {
        None
    }
}

pub open spec fn spec_encode_page_id(page_id: Option<PageId>) -> u64 {
    match page_id {
        Some(v) => v,
        None => INVALID_PAGE_ID,
    }
}

pub open spec fn spec_decode_page_id(value: u64) -> Option<PageId> {
    if value == INVALID_PAGE_ID {
        None
    } else {
        Some(value)
    }
}

/// The smallest page that holds a header and one slot.
pub open spec fn min_page_size() -> nat {
    (PAGE_HEADER_SIZE + SLOT_SIZE) as nat
}

/// The error for a page of `len` bytes, if its size is refused: smaller than a
/// header and a slot, or larger than a `u16` offset can address.
pub open spec fn page_size_error(len: nat) -> Option<PageErrorView> {
    if len < min_page_size() {
        Some(PageErrorView::InvalidPageSize { expected_min: 30, actual: len as usize })
    } else if len > 65535 {
        Some(PageErrorView::InvalidPageSize { expected_min: 0, actual: len as usize })
    } else {
        None
    }
}

pub open spec fn free_range_message(free_start: u16, free_end: u16) -> Seq<char> {
    "free_start must be <= free_end: free_start="@ + decimal(free_start as nat) + ", free_end="@
        + decimal(free_end as nat)
}

pub open spec fn free_end_message(free_end: u16, page_size: nat) -> Seq<char> {
    "free_end must be <= page size: free_end="@ + decimal(free_end as nat) + ", page_size="@
        + decimal(page_size)
}

pub open spec fn free_start_message(expected: nat, actual: u16) -> Seq<char> {
    "invalid free_start: expected="@ + decimal(expected) + ", actual="@ + decimal(actual as nat)
}

/// Where the free space must start for a page with `slot_count` slots.
pub open spec fn expected_free_start(slot_count: u16) -> nat {
    (PAGE_HEADER_SIZE + slot_count * SLOT_SIZE) as nat
}

/// The error for a header that does not fit a page of `len` bytes, if any.
pub open spec fn header_error(len: nat, h: PageHeader) -> Option<PageErrorView> {
    if h.free_start > h.free_end {
        Some(PageErrorView::CorruptedPage { message: free_range_message(h.free_start, h.free_end) })
    } else if h.free_end > len {
        Some(PageErrorView::CorruptedPage { message: free_end_message(h.free_end, len) })
    } else if h.free_start != expected_free_start(h.slot_count) {
        Some(
            PageErrorView::CorruptedPage {
                message: free_start_message(expected_free_start(h.slot_count), h.free_start),
            },
        )
    } else {
        None
    }
}

/// The header fields as stored in the page, with the page type `t`.
pub open spec fn stored_header(page: Seq<u8>, t: PageType) -> PageHeader {
    PageHeader {
        page_id: u64_at(page, 2),
        page_type: t,
        slot_count: u16_at(page, 11),
        free_start: u16_at(page, 13),
        free_end: u16_at(page, 15),
        next_page_id: spec_decode_page_id(u64_at(page, 17)),
    }
}

/// Decodes and checks the header of a page.
pub open spec fn parse_header(page: Seq<u8>) -> Result<PageHeader, PageErrorView> {
    match page_size_error(page.len()) {
        Some(e) => Err(e),
        None => if u16_at(page, 0) != PAGE_MAGIC {
            Err(PageErrorView::InvalidMagic { actual: u16_at(page, 0) })
        } else {
            match page_type_of_byte(page[10]) {
                None => Err(PageErrorView::InvalidPageType { actual: page[10] }),
                Some(t) => match header_error(page.len(), stored_header(page, t)) {
                    Some(e) => Err(e),
                    None => Ok(stored_header(page, t)),
                },
            }
        },
    }
}

/// The page with the header `h` written over its first `PAGE_HEADER_SIZE` bytes.
pub open spec fn put_header(page: Seq<u8>, h: PageHeader) -> Seq<u8> {
    let p0 = put_u16(page, 0, PAGE_MAGIC);
    let p1 = put_u64(p0, 2, h.page_id);
    let p2 = write_at(p1, 10, seq![page_type_byte(h.page_type)]);
    let p3 = put_u16(p2, 11, h.slot_count);
    let p4 = put_u16(p3, 13, h.free_start);
    let p5 = put_u16(p4, 15, h.free_end);
    put_u64(p5, 17, spec_encode_page_id(h.next_page_id))
}

/// Writing header `h` into `page`: the new page and the outcome.
pub open spec fn spec_write_header(page: Seq<u8>, h: PageHeader) -> (
    Seq<u8>,
    Result<(), PageErrorView>,
) {
    match page_size_error(page.len()) {
        Some(e) => (page, Err(e)),
        None => match header_error(page.len(), h) {
            Some(e) => (page, Err(e)),
            None => (put_header(page, h), Ok(())),
        },
    }
}

/// The position of slot `i` in the slot directory.
pub open spec fn slot_pos(i: int) -> int {
    PAGE_HEADER_SIZE + i * SLOT_SIZE
}

/// The slot entry stored at slot `i`.
pub open spec fn slot_at(page: Seq<u8>, i: int) -> Slot {
    Slot {
        offset: u16_at(page, slot_pos(i)),
        len: u16_at(page, slot_pos(i) + 2),
        flags: page[slot_pos(i) + 4],
    }
}

/// The page with slot `i` set to `s`.
pub open spec fn put_slot(page: Seq<u8>, i: int, s: Slot) -> Seq<u8> {
    write_at(
        put_u16(put_u16(page, slot_pos(i), s.offset), slot_pos(i) + 2, s.len),
        slot_pos(i) + 4,
        seq![s.flags],
    )
}

/// Reading slot `slot_id` of a page.
pub open spec fn spec_read_slot(page: Seq<u8>, slot_id: u16) -> Result<Slot, PageErrorView> {
    match parse_header(page) {
        Err(e) => Err(e),
        Ok(h) => if slot_id >= h.slot_count {
            Err(PageErrorView::InvalidSlotId { slot_id, slot_count: h.slot_count })
        } else {
            Ok(slot_at(page, slot_id as int))
        },
    }
}

/// Writing slot `slot_id` of a page: the new page and the outcome.
pub open spec fn spec_write_slot(page: Seq<u8>, slot_id: u16, s: Slot) -> (
    Seq<u8>,
    Result<(), PageErrorView>,
) {
    match parse_header(page) {
        Err(e) => (page, Err(e)),
        Ok(h) => if slot_id >= h.slot_count {
            (page, Err(PageErrorView::InvalidSlotId { slot_id, slot_count: h.slot_count }))
        } else {
            (put_slot(page, slot_id as int, s), Ok(()))
        },
    }
}

/// The header of a freshly initialised page of `len` bytes.
pub open spec fn initial_header(page_id: PageId, page_type: PageType, len: nat) -> PageHeader {
    PageHeader {
        page_id,
        page_type,
        slot_count: 0,
        free_start: PAGE_HEADER_SIZE as u16,
        free_end: len as u16,
        next_page_id: None,
    }
}

/// Initialising a page: every byte cleared, then an empty header written.
pub open spec fn spec_init(page: Seq<u8>, page_id: PageId, page_type: PageType) -> (
    Seq<u8>,
    Result<(), PageErrorView>,
) {
    match page_size_error(page.len()) {
        Some(e) => (page, Err(e)),
        None => (
            put_header(Seq::new(page.len(), |i: int| 0u8), initial_header(page_id, page_type, page.len())),
            Ok(()),
        ),
    }
}

pub open spec fn spec_page_type(page: Seq<u8>) -> Result<PageType, PageErrorView> {
    match parse_header(page) {
        Err(e) => Err(e),
        Ok(h) => Ok(h.page_type),
    }
}

/// The bytes between the slot directory and the records.
pub open spec fn spec_free_space(page: Seq<u8>) -> Result<usize, PageErrorView> {
    match parse_header(page) {
        Err(e) => Err(e),
        Ok(h) => Ok((h.free_end - h.free_start) as usize),
    }
}

/// The page after `record` is stored in a new slot of the page with header `h`:
/// the record goes just below the free space's end, the header grows by one
/// slot, and the new slot points at the record.
pub open spec fn inserted_page(page: Seq<u8>, h: PageHeader, record: Seq<u8>) -> Seq<u8> {
    let start = h.free_end - record.len();
    let h2 = PageHeader {
        slot_count: (h.slot_count + 1) as u16,
        free_start: (h.free_start + SLOT_SIZE) as u16,
        free_end: start as u16,
        ..h
    };
    put_slot(
        put_header(write_at(page, start, record), h2),
        h.slot_count as int,
        Slot { offset: start as u16, len: record.len() as u16, flags: SLOT_FLAG_USED },
    )
}

/// Inserting `record` into a page: the new page and the outcome.
pub open spec fn spec_insert(page: Seq<u8>, record: Seq<u8>) -> (
    Seq<u8>,
    Result<u16, PageErrorView>,
) {
    match page_size_error(page.len()) {
        Some(e) => (page, Err(e)),
        None => match parse_header(page) {
            Err(e) => (page, Err(e)),
            Ok(h) => if record.len() > 65535 {
                (
                    page,
                    Err(
                        PageErrorView::NotEnoughSpace {
                            required: record.len() as usize,
                            available: (h.free_end - h.free_start) as usize,
                        },
                    ),
                )
            } else if SLOT_SIZE + record.len() > h.free_end - h.free_start {
                (
                    page,
                    Err(
                        PageErrorView::NotEnoughSpace {
                            required: (SLOT_SIZE + record.len()) as usize,
                            available: (h.free_end - h.free_start) as usize,
                        },
                    ),
                )
            } else {
                (inserted_page(page, h, record), Ok(h.slot_count))
            },
        },
    }
}

pub open spec fn invalid_flags_message(flags: u8) -> Seq<char> {
    "invalid slot flags: "@ + decimal(flags as nat)
}

pub open spec fn out_of_page_message(start: nat, end: nat, page_size: nat) -> Seq<char> {
    "record range is out of page: start="@ + decimal(start) + ", end="@ + decimal(end)
        + ", page_size="@ + decimal(page_size)
}

/// Reading the record of slot `slot_id`.
pub open spec fn spec_read_record(page: Seq<u8>, slot_id: u16) -> Result<Seq<u8>, PageErrorView> {
    match spec_read_slot(page, slot_id) {
        Err(e) => Err(e),
        Ok(s) => if s.flags == SLOT_FLAG_DELETED {
            Err(PageErrorView::DeletedSlot { slot_id })
        } else if s.flags != SLOT_FLAG_USED {
            Err(PageErrorView::CorruptedPage { message: invalid_flags_message(s.flags) })
        } else if s.offset + s.len > page.len() {
            Err(
                PageErrorView::CorruptedPage {
                    message: out_of_page_message(
                        s.offset as nat,
                        (s.offset + s.len) as nat,
                        page.len(),
                    ),
                },
            )
        } else {
            Ok(page.subrange(s.offset as int, s.offset + s.len))
        },
    }
}

/// Deleting the record of slot `slot_id`: the slot is marked deleted, the
/// record's bytes stay where they are.
pub open spec fn spec_delete(page: Seq<u8>, slot_id: u16) -> (Seq<u8>, Result<(), PageErrorView>) {
    match spec_read_slot(page, slot_id) {
        Err(e) => (page, Err(e)),
        Ok(s) => if s.flags == SLOT_FLAG_DELETED {
            (page, Err(PageErrorView::DeletedSlot { slot_id }))
        } else {
            (put_slot(page, slot_id as int, Slot { flags: SLOT_FLAG_DELETED, ..s }), Ok(()))
        },
    }
}

/// A page whose header is valid and whose every slot points into the record
/// area, between the end of the free space and the end of the page.
pub open spec fn well_formed_page(page: Seq<u8>) -> bool {
    &&& parse_header(page) is Ok
    &&& forall|i: int|
        0 <= i < parse_header(page)->Ok_0.slot_count ==> {
            &&& parse_header(page)->Ok_0.free_end <= (#[trigger] slot_at(page, i)).offset
            &&& slot_at(page, i).offset + slot_at(page, i).len <= page.len()
        }
}

// ---------------------------------------------------------------------------
// Lemmas on the byte-level encoding
// ---------------------------------------------------------------------------

pub proof fn lemma_write_at_same(s: Seq<u8>, off: int, b: Seq<u8>)
    requires
        0 <= off,
        off + b.len() <= s.len(),
    ensures
        write_at(s, off, b).subrange(off, off + b.len()) == b,
        write_at(s, off, b).len() == s.len(),
{
    assert(write_at(s, off, b).subrange(off, off + b.len()) =~= b);
}

pub proof fn lemma_write_at_other(s: Seq<u8>, off: int, b: Seq<u8>, lo: int, hi: int)
    requires
        0 <= lo <= hi <= s.len(),
        hi <= off || off + b.len() <= lo,
    ensures
        write_at(s, off, b).subrange(lo, hi) == s.subrange(lo, hi),
{
    assert(write_at(s, off, b).subrange(lo, hi) =~= s.subrange(lo, hi));
}

pub proof fn lemma_u16_put(s: Seq<u8>, off: int, v: u16)
    requires
        0 <= off,
        off + 2 <= s.len(),
    ensures
        u16_at(put_u16(s, off, v), off) == v,
        put_u16(s, off, v).len() == s.len(),
{
    lemma_auto_spec_u16_to_from_le_bytes();
    lemma_write_at_same(s, off, spec_u16_to_le_bytes(v));
}

pub proof fn lemma_u64_put(s: Seq<u8>, off: int, v: u64)
    requires
        0 <= off,
        off + 8 <= s.len(),
    ensures
        u64_at(put_u64(s, off, v), off) == v,
        put_u64(s, off, v).len() == s.len(),
{
    lemma_auto_spec_u64_to_from_le_bytes();
    lemma_write_at_same(s, off, spec_u64_to_le_bytes(v));
}

/// Writing back the value just read leaves the bytes as they were.
pub proof fn lemma_u16_put_same(s: Seq<u8>, off: int)
    requires
        0 <= off,
        off + 2 <= s.len(),
    ensures
        put_u16(s, off, u16_at(s, off)) == s,
{
    lemma_auto_spec_u16_to_from_le_bytes();
    let b = spec_u16_to_le_bytes(u16_at(s, off));
    assert(b =~= s.subrange(off, off + 2));
    assert(put_u16(s, off, u16_at(s, off)) =~= s);
}

pub proof fn lemma_page_type_byte(t: PageType)
    ensures
        page_type_of_byte(page_type_byte(t)) == Some(t),
{
}

/// A header with no error, written into a page of accepted size, reads back as itself.
pub proof fn lemma_parse_put_header(page: Seq<u8>, h: PageHeader)
    requires
        page_size_error(page.len()) is None,
        header_error(page.len(), h) is None,
        h.next_page_id != Some(INVALID_PAGE_ID),
    ensures
        parse_header(put_header(page, h)) == Ok::<PageHeader, PageErrorView>(h),
        put_header(page, h).len() == page.len(),
{
    lemma_auto_spec_u16_to_from_le_bytes();
    lemma_auto_spec_u64_to_from_le_bytes();
    let p0 = put_u16(page, 0, PAGE_MAGIC);
    let p1 = put_u64(p0, 2, h.page_id);
    let p2 = write_at(p1, 10, seq![page_type_byte(h.page_type)]);
    let p3 = put_u16(p2, 11, h.slot_count);
    let p4 = put_u16(p3, 13, h.free_start);
    let p5 = put_u16(p4, 15, h.free_end);
    let p6 = put_u64(p5, 17, spec_encode_page_id(h.next_page_id));
    lemma_u16_put(page, 0, PAGE_MAGIC);
    lemma_u64_put(p0, 2, h.page_id);
    lemma_u16_put(p2, 11, h.slot_count);
    lemma_u16_put(p3, 13, h.free_start);
    lemma_u16_put(p4, 15, h.free_end);
    lemma_u64_put(p5, 17, spec_encode_page_id(h.next_page_id));
    // each field survives the writes that follow it
    assert(p6.subrange(0, 2) =~= p0.subrange(0, 2));
    assert(p6.subrange(2, 10) =~= p1.subrange(2, 10));
    assert(p6[10] == page_type_byte(h.page_type));
    assert(p6.subrange(11, 13) =~= p3.subrange(11, 13));
    assert(p6.subrange(13, 15) =~= p4.subrange(13, 15));
    assert(p6.subrange(15, 17) =~= p5.subrange(15, 17));
    lemma_page_type_byte(h.page_type);
    assert(stored_header(p6, h.page_type) == h);
}


/// `parse_header` reads only the header bytes and the page length.
pub proof fn lemma_parse_header_prefix(a: Seq<u8>, b: Seq<u8>)
    requires
        a.len() == b.len(),
        a.len() >= PAGE_HEADER_SIZE,
        a.subrange(0, PAGE_HEADER_SIZE as int) == b.subrange(0, PAGE_HEADER_SIZE as int),
    ensures
        parse_header(a) == parse_header(b),
{
    let ha = a.subrange(0, PAGE_HEADER_SIZE as int);
    let hb = b.subrange(0, PAGE_HEADER_SIZE as int);
    assert(a.subrange(0, 2) =~= ha.subrange(0, 2));
    assert(b.subrange(0, 2) =~= hb.subrange(0, 2));
    assert(a.subrange(2, 10) =~= ha.subrange(2, 10));
    assert(b.subrange(2, 10) =~= hb.subrange(2, 10));
    assert(a.subrange(11, 13) =~= ha.subrange(11, 13));
    assert(b.subrange(11, 13) =~= hb.subrange(11, 13));
    assert(a.subrange(13, 15) =~= ha.subrange(13, 15));
    assert(b.subrange(13, 15) =~= hb.subrange(13, 15));
    assert(a.subrange(15, 17) =~= ha.subrange(15, 17));
    assert(b.subrange(15, 17) =~= hb.subrange(15, 17));
    assert(a.subrange(17, 25) =~= ha.subrange(17, 25));
    assert(b.subrange(17, 25) =~= hb.subrange(17, 25));
    assert(a[10] == ha[10]);
    assert(b[10] == hb[10]);
}

/// Writing a header changes only the header bytes.
pub proof fn lemma_put_header_other(page: Seq<u8>, h: PageHeader, lo: int, hi: int)
    requires
        PAGE_HEADER_SIZE <= lo <= hi <= page.len(),
    ensures
        put_header(page, h).subrange(lo, hi) == page.subrange(lo, hi),
        put_header(page, h).len() == page.len(),
{
    lemma_auto_spec_u16_to_from_le_bytes();
    lemma_auto_spec_u64_to_from_le_bytes();
    assert(put_header(page, h).subrange(lo, hi) =~= page.subrange(lo, hi));
}

/// A slot entry written into the directory reads back as itself, and the
/// bytes outside that entry are left alone.
pub proof fn lemma_put_slot(page: Seq<u8>, i: int, s: Slot)
    requires
        0 <= i,
        slot_pos(i) + SLOT_SIZE <= page.len(),
    ensures
        slot_at(put_slot(page, i, s), i) == s,
        put_slot(page, i, s).len() == page.len(),
        forall|lo: int, hi: int|
            0 <= lo <= hi <= page.len() && (hi <= slot_pos(i) || slot_pos(i) + SLOT_SIZE <= lo)
                ==> #[trigger] put_slot(page, i, s).subrange(lo, hi) == page.subrange(lo, hi),
{
    lemma_auto_spec_u16_to_from_le_bytes();
    let p = slot_pos(i);
    let q1 = put_u16(page, p, s.offset);
    let q2 = put_u16(q1, p + 2, s.len);
    let q3 = write_at(q2, p + 4, seq![s.flags]);
    lemma_u16_put(page, p, s.offset);
    lemma_u16_put(q1, p + 2, s.len);
    assert(q3.subrange(p, p + 2) =~= q1.subrange(p, p + 2));
    assert(q3.subrange(p + 2, p + 4) =~= q2.subrange(p + 2, p + 4));
    assert forall|lo: int, hi: int|
        0 <= lo <= hi <= page.len() && (hi <= slot_pos(i) || slot_pos(i) + SLOT_SIZE <= lo)
            implies #[trigger] put_slot(page, i, s).subrange(lo, hi) == page.subrange(lo, hi) by {
        assert(put_slot(page, i, s).subrange(lo, hi) =~= page.subrange(lo, hi));
    }
}

/// A record that was inserted reads back as itself.
pub proof fn lemma_read_after_insert(page: Seq<u8>, record: Seq<u8>)
    requires
        spec_insert(page, record).1 is Ok,
    ensures
        spec_read_record(spec_insert(page, record).0, spec_insert(page, record).1->Ok_0)
            == Ok::<Seq<u8>, PageErrorView>(record),
{
    let h = parse_header(page)->Ok_0;
    let start = h.free_end - record.len();
    let h2 = PageHeader {
        slot_count: (h.slot_count + 1) as u16,
        free_start: (h.free_start + SLOT_SIZE) as u16,
        free_end: start as u16,
        ..h
    };
    let slot = Slot { offset: start as u16, len: record.len() as u16, flags: SLOT_FLAG_USED };
    let p1 = write_at(page, start, record);
    let p2 = put_header(p1, h2);
    let p3 = put_slot(p2, h.slot_count as int, slot);
    assert(p3 == spec_insert(page, record).0);
    lemma_write_at_same(page, start, record);
    lemma_parse_put_header(p1, h2);
    lemma_put_slot(p2, h.slot_count as int, slot);
    assert(p3.subrange(0, 25) == p2.subrange(0, 25));
    lemma_parse_header_prefix(p3, p2);
    lemma_put_header_other(p1, h2, start, start + record.len());
    assert(p3.subrange(start, start + record.len()) == p2.subrange(start, start + record.len()));
}

/// A record that was deleted reads as deleted.
pub proof fn lemma_read_after_delete(page: Seq<u8>, slot_id: u16)
    requires
        spec_delete(page, slot_id).1 is Ok,
    ensures
        spec_read_record(spec_delete(page, slot_id).0, slot_id) == Err::<Seq<u8>, PageErrorView>(
            PageErrorView::DeletedSlot { slot_id },
        ),
{
    let s = spec_read_slot(page, slot_id)->Ok_0;
    let s2 = Slot { flags: SLOT_FLAG_DELETED, ..s };
    let p2 = put_slot(page, slot_id as int, s2);
    lemma_put_slot(page, slot_id as int, s2);
    assert(p2.subrange(0, 25) == page.subrange(0, 25));
    lemma_parse_header_prefix(p2, page);
}

} // verus!
