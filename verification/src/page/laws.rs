//! What the operations on slotted pages keep and undo, proved over the
//! functions of `page::layout`.
use vstd::prelude::*;

use crate::disk::PageId;
use crate::page::PageErrorView;
use crate::page::PageType;
use crate::page::{PageManager, SlotId, SlottedPageManager};
use crate::page::layout::{
    INVALID_PAGE_ID, PAGE_HEADER_SIZE, PAGE_MAGIC, PageHeader, SLOT_FLAG_DELETED, SLOT_FLAG_USED,
    SLOT_SIZE, Slot, header_error, initial_header, page_size_error, spec_write_header, u16_at, lemma_parse_header_prefix, lemma_parse_put_header, lemma_put_header_other,
    lemma_put_slot, lemma_write_at_other, parse_header, put_header, put_slot,
    slot_at, slot_pos, spec_delete, spec_free_space, spec_init, spec_insert, spec_page_type,
    spec_read_record, spec_read_slot, well_formed_page, write_at,
};

verus! {

/// Two pages whose bytes agree on slot `i`'s entry hold the same entry there.
pub proof fn lemma_slot_at_same(a: Seq<u8>, b: Seq<u8>, i: int)
    requires
        0 <= i,
        slot_pos(i) + SLOT_SIZE <= a.len(),
        slot_pos(i) + SLOT_SIZE <= b.len(),
        a.subrange(slot_pos(i), slot_pos(i) + SLOT_SIZE) == b.subrange(
            slot_pos(i),
            slot_pos(i) + SLOT_SIZE,
        ),
    ensures
        slot_at(a, i) == slot_at(b, i),
{
    let p = slot_pos(i);
    let sa = a.subrange(p, p + SLOT_SIZE);
    let sb = b.subrange(p, p + SLOT_SIZE);
    assert(a.subrange(p, p + 2) =~= sa.subrange(0, 2));
    assert(b.subrange(p, p + 2) =~= sb.subrange(0, 2));
    assert(a.subrange(p + 2, p + 4) =~= sa.subrange(2, 4));
    assert(b.subrange(p + 2, p + 4) =~= sb.subrange(2, 4));
    assert(a[p + 4] == sa[4]);
    assert(b[p + 4] == sb[4]);
}

/// The pieces of an insertion that succeeds.
pub open spec fn insertion_header(h: PageHeader, record: Seq<u8>) -> PageHeader {
    PageHeader {
        slot_count: (h.slot_count + 1) as u16,
        free_start: (h.free_start + SLOT_SIZE) as u16,
        free_end: (h.free_end - record.len()) as u16,
        ..h
    }
}

/// After a successful insertion the header has one more slot, and the free
/// space has shrunk by one slot entry and the record.
pub proof fn lemma_insert_header(page: Seq<u8>, record: Seq<u8>)
    requires
        spec_insert(page, record).1 is Ok,
    ensures
        parse_header(spec_insert(page, record).0) == Ok::<PageHeader, PageErrorView>(
            insertion_header(parse_header(page)->Ok_0, record),
        ),
        spec_insert(page, record).1->Ok_0 == parse_header(page)->Ok_0.slot_count,
        spec_insert(page, record).0.len() == page.len(),
        // bytes outside the header, the new slot entry and the new record are unchanged
        forall|lo: int, hi: int|
            PAGE_HEADER_SIZE <= lo <= hi <= page.len() && (hi <= parse_header(page)->Ok_0.free_start
                || parse_header(page)->Ok_0.free_start + SLOT_SIZE <= lo) && (hi
                <= parse_header(page)->Ok_0.free_end - record.len()
                || parse_header(page)->Ok_0.free_end <= lo) ==> #[trigger] spec_insert(
                page,
                record,
            ).0.subrange(lo, hi) == page.subrange(lo, hi),
{
    let h = parse_header(page)->Ok_0;
    let start = h.free_end - record.len();
    let h2 = insertion_header(h, record);
    let slot = Slot { offset: start as u16, len: record.len() as u16, flags: SLOT_FLAG_USED };
    let p1 = write_at(page, start, record);
    let p2 = put_header(p1, h2);
    let p3 = put_slot(p2, h.slot_count as int, slot);
    assert(p3 == spec_insert(page, record).0);
    lemma_parse_put_header(p1, h2);
    lemma_put_slot(p2, h.slot_count as int, slot);
    assert(p3.subrange(0, 25) == p2.subrange(0, 25));
    lemma_parse_header_prefix(p3, p2);
    assert forall|lo: int, hi: int|
        PAGE_HEADER_SIZE <= lo <= hi <= page.len() && (hi <= h.free_start || h.free_start
            + SLOT_SIZE <= lo) && (hi <= start || h.free_end <= lo) implies #[trigger] p3.subrange(
        lo,
        hi,
    ) == page.subrange(lo, hi) by {
        lemma_put_header_other(p1, h2, lo, hi);
        lemma_write_at_other(page, start, record, lo, hi);
    }
}

/// Inserting a record leaves the records of the slots that were already there
/// as they read before, on a well-formed page.
pub proof fn lemma_insert_keeps_other_records(page: Seq<u8>, record: Seq<u8>, slot_id: u16)
    requires
        well_formed_page(page),
        spec_insert(page, record).1 is Ok,
        slot_id < parse_header(page)->Ok_0.slot_count,
    ensures
        spec_read_record(spec_insert(page, record).0, slot_id) == spec_read_record(page, slot_id),
{
    let h = parse_header(page)->Ok_0;
    let p3 = spec_insert(page, record).0;
    lemma_insert_header(page, record);
    let pos = slot_pos(slot_id as int);
    assert(p3.subrange(pos, pos + SLOT_SIZE) == page.subrange(pos, pos + SLOT_SIZE));
    lemma_slot_at_same(p3, page, slot_id as int);
    let s = slot_at(page, slot_id as int);
    assert(h.free_end <= s.offset);
    assert(p3.subrange(s.offset as int, s.offset + s.len) == page.subrange(
        s.offset as int,
        s.offset + s.len,
    ));
}

/// Insertion keeps a page well formed.
pub proof fn lemma_insert_keeps_well_formed(page: Seq<u8>, record: Seq<u8>)
    requires
        well_formed_page(page),
        spec_insert(page, record).1 is Ok,
    ensures
        well_formed_page(spec_insert(page, record).0),
{
    let h = parse_header(page)->Ok_0;
    let p3 = spec_insert(page, record).0;
    let start = h.free_end - record.len();
    lemma_insert_header(page, record);
    let slot = Slot { offset: start as u16, len: record.len() as u16, flags: SLOT_FLAG_USED };
    let p1 = write_at(page, start, record);
    let p2 = put_header(p1, insertion_header(h, record));
    lemma_put_slot(p2, h.slot_count as int, slot);
    assert forall|i: int| 0 <= i < parse_header(p3)->Ok_0.slot_count implies {
        &&& parse_header(p3)->Ok_0.free_end <= (#[trigger] slot_at(p3, i)).offset
        &&& slot_at(p3, i).offset + slot_at(p3, i).len <= p3.len()
    } by {
        if i < h.slot_count {
            let pos = slot_pos(i);
            assert(p3.subrange(pos, pos + SLOT_SIZE) == page.subrange(pos, pos + SLOT_SIZE));
            lemma_slot_at_same(p3, page, i);
        }
    }
}

/// Deleting a record marks its slot deleted and changes no other byte.
pub proof fn lemma_delete_shape(page: Seq<u8>, slot_id: u16)
    requires
        spec_delete(page, slot_id).1 is Ok,
    ensures
        parse_header(spec_delete(page, slot_id).0) == parse_header(page),
        spec_delete(page, slot_id).0.len() == page.len(),
        slot_at(spec_delete(page, slot_id).0, slot_id as int) == (Slot {
            flags: SLOT_FLAG_DELETED,
            ..slot_at(page, slot_id as int)
        }),
        forall|lo: int, hi: int|
            0 <= lo <= hi <= page.len() && (hi <= slot_pos(slot_id as int) || slot_pos(
                slot_id as int,
            ) + SLOT_SIZE <= lo) ==> #[trigger] spec_delete(page, slot_id).0.subrange(lo, hi)
                == page.subrange(lo, hi),
{
    let s = spec_read_slot(page, slot_id)->Ok_0;
    let s2 = Slot { flags: SLOT_FLAG_DELETED, ..s };
    let p2 = put_slot(page, slot_id as int, s2);
    lemma_put_slot(page, slot_id as int, s2);
    assert(p2.subrange(0, 25) == page.subrange(0, 25));
    lemma_parse_header_prefix(p2, page);
}

/// Deleting a record leaves the other records as they read before, on a
/// well-formed page.
pub proof fn lemma_delete_keeps_other_records(page: Seq<u8>, slot_id: u16, other: u16)
    requires
        well_formed_page(page),
        spec_delete(page, slot_id).1 is Ok,
        other != slot_id,
    ensures
        spec_read_record(spec_delete(page, slot_id).0, other) == spec_read_record(page, other),
{
    let h = parse_header(page)->Ok_0;
    let p2 = spec_delete(page, slot_id).0;
    lemma_delete_shape(page, slot_id);
    if other < h.slot_count {
        let pos = slot_pos(other as int);
        assert(p2.subrange(pos, pos + SLOT_SIZE) == page.subrange(pos, pos + SLOT_SIZE));
        lemma_slot_at_same(p2, page, other as int);
        let s = slot_at(page, other as int);
        assert(p2.subrange(s.offset as int, s.offset + s.len) == page.subrange(
            s.offset as int,
            s.offset + s.len,
        ));
    }
}

/// Deletion keeps a page well formed.
pub proof fn lemma_delete_keeps_well_formed(page: Seq<u8>, slot_id: u16)
    requires
        well_formed_page(page),
        spec_delete(page, slot_id).1 is Ok,
    ensures
        well_formed_page(spec_delete(page, slot_id).0),
{
    let h = parse_header(page)->Ok_0;
    let p2 = spec_delete(page, slot_id).0;
    lemma_delete_shape(page, slot_id);
    assert forall|i: int| 0 <= i < parse_header(p2)->Ok_0.slot_count implies {
        &&& parse_header(p2)->Ok_0.free_end <= (#[trigger] slot_at(p2, i)).offset
        &&& slot_at(p2, i).offset + slot_at(p2, i).len <= p2.len()
    } by {
        if i != slot_id {
            let pos = slot_pos(i);
            assert(p2.subrange(pos, pos + SLOT_SIZE) == page.subrange(pos, pos + SLOT_SIZE));
            lemma_slot_at_same(p2, page, i);
        }
    }
}

/// A freshly initialised page is well formed, has the requested type, no
/// slots, and all its space after the header free.
pub proof fn lemma_init_page(page: Seq<u8>, page_id: PageId, page_type: PageType, slot_id: u16)
    requires
        spec_init(page, page_id, page_type).1 is Ok,
    ensures
        well_formed_page(spec_init(page, page_id, page_type).0),
        parse_header(spec_init(page, page_id, page_type).0) == Ok::<PageHeader, PageErrorView>(
            initial_header(page_id, page_type, page.len()),
        ),
        spec_page_type(spec_init(page, page_id, page_type).0) == Ok::<PageType, PageErrorView>(
            page_type,
        ),
        spec_free_space(spec_init(page, page_id, page_type).0) == Ok::<usize, PageErrorView>(
            (page.len() - PAGE_HEADER_SIZE) as usize,
        ),
        spec_read_record(spec_init(page, page_id, page_type).0, slot_id) == Err::<
            Seq<u8>,
            PageErrorView,
        >(PageErrorView::InvalidSlotId { slot_id, slot_count: 0 }),
{
    let zeros = Seq::new(page.len(), |i: int| 0u8);
    lemma_parse_put_header(zeros, initial_header(page_id, page_type, page.len()));
}

/// Insertion and deletion keep the page type.
pub proof fn lemma_updates_keep_page_type(page: Seq<u8>, record: Seq<u8>, slot_id: u16)
    ensures
        spec_insert(page, record).1 is Ok ==> spec_page_type(spec_insert(page, record).0)
            == spec_page_type(page),
        spec_delete(page, slot_id).1 is Ok ==> spec_page_type(spec_delete(page, slot_id).0)
            == spec_page_type(page),
{
    if spec_insert(page, record).1 is Ok {
        lemma_insert_header(page, record);
    }
    if spec_delete(page, slot_id).1 is Ok {
        lemma_delete_shape(page, slot_id);
    }
}

/// Initialising a page of accepted size succeeds; the result depends only on
/// the page's length, id and type, starts with the magic number, and is zero
/// after the header.
pub proof fn lemma_init_page_bytes(
    page: Seq<u8>,
    other: Seq<u8>,
    page_id: PageId,
    page_type: PageType,
)
    requires
        page_size_error(page.len()) is None,
        other.len() == page.len(),
    ensures
        spec_init(page, page_id, page_type).1 is Ok,
        spec_init(other, page_id, page_type) == spec_init(page, page_id, page_type),
        spec_init(page, page_id, page_type).0.len() == page.len(),
        u16_at(spec_init(page, page_id, page_type).0, 0) == PAGE_MAGIC,
        forall|i: int|
            PAGE_HEADER_SIZE <= i < page.len() ==> #[trigger] spec_init(
                page,
                page_id,
                page_type,
            ).0[i] == 0,
{
    let zeros = Seq::new(page.len(), |i: int| 0u8);
    let h = initial_header(page_id, page_type, page.len());
    let init = spec_init(page, page_id, page_type).0;
    lemma_parse_put_header(zeros, h);
    lemma_put_header_other(zeros, h, PAGE_HEADER_SIZE as int, page.len() as int);
    assert forall|i: int| PAGE_HEADER_SIZE <= i < page.len() implies #[trigger] init[i] == 0 by {
        assert(init.subrange(PAGE_HEADER_SIZE as int, page.len() as int)[i - PAGE_HEADER_SIZE]
            == zeros.subrange(PAGE_HEADER_SIZE as int, page.len() as int)[i - PAGE_HEADER_SIZE]);
    }
    assert(Seq::new(other.len(), |i: int| 0u8) =~= zeros);
}

/// A header passes the check exactly when its free space lies inside the
/// page and starts right after the slot directory; a refused header is
/// reported as a corrupted page. Every header that is read back or written
/// passes it.
pub proof fn lemma_header_check(page: Seq<u8>, h: PageHeader)
    ensures
        header_error(page.len(), h) is None <==> (h.free_start <= h.free_end && h.free_end
            <= page.len() && h.free_start == PAGE_HEADER_SIZE + SLOT_SIZE * h.slot_count),
        header_error(page.len(), h) matches Some(e) ==> e is CorruptedPage,
        parse_header(page) matches Ok(g) ==> header_error(page.len(), g) is None,
        spec_write_header(page, h).1 is Ok ==> header_error(page.len(), h) is None,
{
}

/// A header written into a page reads back as itself.
pub proof fn lemma_write_then_read_header(page: Seq<u8>, h: PageHeader)
    requires
        h.next_page_id != Some(INVALID_PAGE_ID),
        spec_write_header(page, h).1 is Ok,
    ensures
        parse_header(spec_write_header(page, h).0) == Ok::<PageHeader, PageErrorView>(h),
{
    lemma_parse_put_header(page, h);
}

/// One update of a slotted page.
pub enum PageUpdate {
    Insert(Seq<u8>),
    Delete(u16),
}

/// The page after the updates `ops`, in order, and whether all of them
/// succeeded; the first that fails stops the run.
pub open spec fn apply_updates(page: Seq<u8>, ops: Seq<PageUpdate>) -> (Seq<u8>, bool)
    decreases ops.len(),
{
    if ops.len() == 0 {
        (page, true)
    } else {
        let before = apply_updates(page, ops.drop_last());
        if !before.1 {
            before
        } else {
            match ops.last() {
                PageUpdate::Insert(record) => (
                    spec_insert(before.0, record).0,
                    spec_insert(before.0, record).1 is Ok,
                ),
                PageUpdate::Delete(slot_id) => (
                    spec_delete(before.0, slot_id).0,
                    spec_delete(before.0, slot_id).1 is Ok,
                ),
            }
        }
    }
}

/// The space that the insertions among `ops` take: a slot entry and the
/// record for each.
pub open spec fn space_taken(ops: Seq<PageUpdate>) -> nat
    decreases ops.len(),
{
    if ops.len() == 0 {
        0
    } else {
        space_taken(ops.drop_last()) + match ops.last() {
            PageUpdate::Insert(record) => (SLOT_SIZE + record.len()) as nat,
            PageUpdate::Delete(_) => 0nat,
        }
    }
}

/// Each insertion takes a slot entry and its record from the free space, and
/// a deletion gives nothing back: after updates that all succeed, the free
/// space is what it was less the space the insertions took.
pub proof fn lemma_free_space_after_updates(page: Seq<u8>, ops: Seq<PageUpdate>)
    requires
        spec_free_space(page) is Ok,
        apply_updates(page, ops).1,
    ensures
        spec_free_space(apply_updates(page, ops).0) is Ok,
        spec_free_space(apply_updates(page, ops).0)->Ok_0 + space_taken(ops) == spec_free_space(
            page,
        )->Ok_0,
    decreases ops.len(),
{
    if ops.len() > 0 {
        let rest = ops.drop_last();
        lemma_free_space_after_updates(page, rest);
        let p = apply_updates(page, rest).0;
        match ops.last() {
            PageUpdate::Insert(record) => {
                lemma_insert_header(p, record);
            },
            PageUpdate::Delete(slot_id) => {
                lemma_delete_shape(p, slot_id);
            },
        }
    }
}

/// A record fits a page when the free space holds its slot entry and its
/// bytes. Inserting a record that fits succeeds, in the next slot, and takes
/// exactly that space; inserting one that does not fit is refused as
/// `NotEnoughSpace`, with the page unchanged.
pub proof fn lemma_insert_succeeds_when_it_fits(
    pm: SlottedPageManager,
    page: Seq<u8>,
    record: Seq<u8>,
)
    requires
        parse_header(page) is Ok,
        record.len() <= 65535,
    ensures
        (SLOT_SIZE + record.len() <= parse_header(page)->Ok_0.free_end - parse_header(
            page,
        )->Ok_0.free_start) <==> pm.spec_insert_record(page, record).1 is Ok,
        SLOT_SIZE + record.len() <= parse_header(page)->Ok_0.free_end - parse_header(
            page,
        )->Ok_0.free_start ==> pm.spec_insert_record(page, record).1 == Ok::<SlotId, PageErrorView>(
            parse_header(page)->Ok_0.slot_count,
        ) && pm.spec_free_space_size(pm.spec_insert_record(page, record).0) == Ok::<
            usize,
            PageErrorView,
        >(
            (parse_header(page)->Ok_0.free_end - parse_header(page)->Ok_0.free_start - SLOT_SIZE
                - record.len()) as usize,
        ),
        SLOT_SIZE + record.len() > parse_header(page)->Ok_0.free_end - parse_header(
            page,
        )->Ok_0.free_start ==> pm.spec_insert_record(page, record) == (
            page,
            Err::<SlotId, PageErrorView>(
                PageErrorView::NotEnoughSpace {
                    required: (SLOT_SIZE + record.len()) as usize,
                    available: (parse_header(page)->Ok_0.free_end - parse_header(
                        page,
                    )->Ok_0.free_start) as usize,
                },
            ),
        ),
{
    if spec_insert(page, record).1 is Ok {
        lemma_insert_header(page, record);
    }
}

/// Deleting succeeds exactly on a slot that exists and is not yet deleted.
/// A slot id past the slot count is refused as `InvalidSlotId`, a deleted slot
/// as `DeletedSlot`, and in both cases the page is unchanged; after a deletion
/// the slot reads as deleted.
pub proof fn lemma_delete_succeeds_on_a_live_slot(pm: SlottedPageManager, page: Seq<u8>, slot_id: SlotId)
    requires
        parse_header(page) is Ok,
    ensures
        (slot_id < parse_header(page)->Ok_0.slot_count && slot_at(page, slot_id as int).flags
            != SLOT_FLAG_DELETED) <==> pm.spec_delete_record(page, slot_id).1 is Ok,
        slot_id >= parse_header(page)->Ok_0.slot_count ==> pm.spec_delete_record(page, slot_id) == (
            page,
            Err::<(), PageErrorView>(
                PageErrorView::InvalidSlotId {
                    slot_id,
                    slot_count: parse_header(page)->Ok_0.slot_count,
                },
            ),
        ),
        slot_id < parse_header(page)->Ok_0.slot_count && slot_at(page, slot_id as int).flags
            == SLOT_FLAG_DELETED ==> pm.spec_delete_record(page, slot_id) == (
            page,
            Err::<(), PageErrorView>(PageErrorView::DeletedSlot { slot_id }),
        ),
        pm.spec_delete_record(page, slot_id).1 is Ok ==> pm.spec_read_record(
            pm.spec_delete_record(page, slot_id).0,
            slot_id,
        ) == Err::<Seq<u8>, PageErrorView>(PageErrorView::DeletedSlot { slot_id }),
{
    if spec_delete(page, slot_id).1 is Ok {
        crate::page::layout::lemma_read_after_delete(page, slot_id);
    }
}

} // verus!
