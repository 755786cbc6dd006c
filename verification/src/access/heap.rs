use vstd::prelude::*;
use vstd::slice::slice_to_vec;
use vstd::string::StringExecFns;

use crate::access::{
    AccessError, AccessErrorView, AccessMethod, AccessResult, PageAccessor, RecordId,
    access_result_view,
};
use crate::disk::{PageId, zero_page};
use crate::page::{PageErrorView, PageManager, PageType, SlotId};

verus! {

/// The name of a page type, as `{:?}` prints it.
pub open spec fn page_type_name(t: PageType) -> Seq<char> {
    match t {
        PageType::Free => "Free"@,
        PageType::TableLeaf => "TableLeaf"@,
        PageType::TableOverflow => "TableOverflow"@,
        PageType::IndexInternal => "IndexInternal"@,
        PageType::IndexLeaf => "IndexLeaf"@,
    }
}

pub open spec fn wrong_type_message(t: PageType) -> Seq<char> {
    "expected TableLeaf page, but got "@ + page_type_name(t)
}

/// Checking that a page holds table records.
pub open spec fn leaf_check<P: PageManager>(pm: P, page_id: PageId, page: Seq<u8>) -> Result<
    (),
    AccessErrorView,
> {
    match pm.spec_page_type(page) {
        Err(e) => Err(AccessErrorView::Page(e)),
        Ok(t) => if t != PageType::TableLeaf {
            Err(AccessErrorView::InvalidAccessPage { page_id, message: wrong_type_message(t) })
        } else {
            Ok(())
        },
    }
}

/// Reading the record in slot `slot_id` of `page`, page `page_id` of a heap.
pub open spec fn record_in_page<P: PageManager>(
    pm: P,
    page_id: PageId,
    page: Seq<u8>,
    slot_id: SlotId,
) -> Result<Seq<u8>, AccessErrorView> {
    match leaf_check(pm, page_id, page) {
        Err(e) => Err(e),
        Ok(()) => match pm.spec_read_record(page, slot_id) {
            Ok(r) => Ok(r),
            Err(e) => Err(AccessErrorView::Page(e)),
        },
    }
}

/// A page with room for a record of `len` bytes, by the heap's measure: its
/// free space is at least `len`.
pub open spec fn fits<P: PageManager>(pm: P, page: Seq<u8>, len: nat) -> bool {
    pm.spec_free_space_size(page) matches Ok(f) && f >= len
}

/// Checking whether `page` has room for a record of `len` bytes: its free
/// space is at least `len`.
pub open spec fn room_check<P: PageManager>(pm: P, page: Seq<u8>, len: nat) -> Result<
    bool,
    AccessErrorView,
> {
    match pm.spec_free_space_size(page) {
        Ok(f) => Ok(f >= len),
        Err(e) => Err(AccessErrorView::Page(e)),
    }
}

/// Initialising a page of zeros of `page_size` bytes as table page `page_id`.
pub open spec fn init_leaf<P: PageManager>(pm: P, page_size: nat, page_id: PageId) -> Result<
    (),
    AccessErrorView,
> {
    match pm.spec_init_page(zero_page(page_size), page_id, PageType::TableLeaf).1 {
        Ok(()) => Ok(()),
        Err(e) => Err(AccessErrorView::Page(e)),
    }
}

/// Inserting `record` into `page`, page `page_id` of a heap: the page must be
/// a table page. The new bytes and the outcome.
pub open spec fn insert_in_page<P: PageManager>(
    pm: P,
    page_id: PageId,
    page: Seq<u8>,
    record: Seq<u8>,
) -> (Seq<u8>, Result<SlotId, AccessErrorView>) {
    match leaf_check(pm, page_id, page) {
        Err(e) => (page, Err(e)),
        Ok(()) => (
            pm.spec_insert_record(page, record).0,
            match pm.spec_insert_record(page, record).1 {
                Ok(slot_id) => Ok(slot_id),
                Err(e) => Err(AccessErrorView::Page(e)),
            },
        ),
    }
}

/// Deleting the record in slot `record_id.slot_id` of `page`, which is page
/// `record_id.page_id`: the page must be a table page. The new bytes and the
/// outcome.
pub open spec fn delete_in_page<P: PageManager>(pm: P, record_id: RecordId, page: Seq<u8>) -> (
    Seq<u8>,
    Result<(), AccessErrorView>,
) {
    match leaf_check(pm, record_id.page_id, page) {
        Err(e) => (page, Err(e)),
        Ok(()) => (
            pm.spec_delete_record(page, record_id.slot_id).0,
            match pm.spec_delete_record(page, record_id.slot_id).1 {
                Ok(()) => Ok(()),
                Err(e) => Err(AccessErrorView::Page(e)),
            },
        ),
    }
}

/// A record inserted into a table page reads back as itself from the page
/// that results.
pub proof fn lemma_record_after_insert<P: PageManager>(
    pm: P,
    page_id: PageId,
    page: Seq<u8>,
    record: Seq<u8>,
)
    requires
        leaf_check(pm, page_id, page) is Ok,
        pm.spec_insert_record(page, record).1 is Ok,
    ensures
        record_in_page(
            pm,
            page_id,
            pm.spec_insert_record(page, record).0,
            pm.spec_insert_record(page, record).1->Ok_0,
        ) == Ok::<Seq<u8>, AccessErrorView>(record),
{
    pm.lemma_read_after_insert(page, record);
    pm.lemma_insert_keeps_page_type(page, record);
}

/// A record deleted from a table page reads as a deleted slot from the page
/// that results.
pub proof fn lemma_record_after_delete<P: PageManager>(
    pm: P,
    page_id: PageId,
    page: Seq<u8>,
    slot_id: SlotId,
)
    requires
        leaf_check(pm, page_id, page) is Ok,
        pm.spec_delete_record(page, slot_id).1 is Ok,
    ensures
        record_in_page(pm, page_id, pm.spec_delete_record(page, slot_id).0, slot_id) == Err::<
            Seq<u8>,
            AccessErrorView,
        >(AccessErrorView::Page(PageErrorView::DeletedSlot { slot_id })),
{
    pm.lemma_read_after_delete(page, slot_id);
    pm.lemma_delete_keeps_page_type(page, slot_id);
}

/// On a well-formed table page, inserting a record leaves every record that
/// could be read before as it was.
pub proof fn lemma_insert_keeps_records<P: PageManager>(
    pm: P,
    page_id: PageId,
    page: Seq<u8>,
    record: Seq<u8>,
    slot_id: SlotId,
)
    requires
        pm.well_formed(page),
        pm.spec_insert_record(page, record).1 is Ok,
        record_in_page(pm, page_id, page, slot_id) is Ok,
    ensures
        record_in_page(pm, page_id, pm.spec_insert_record(page, record).0, slot_id)
            == record_in_page(pm, page_id, page, slot_id),
{
    pm.lemma_insert_keeps_other_records(page, record, slot_id);
    pm.lemma_insert_keeps_page_type(page, record);
}

fn page_type_name_str(t: PageType) -> (s: &'static str)
    ensures
        s@ == page_type_name(t),
{
    proof {
        reveal_strlit("Free");
        reveal_strlit("TableLeaf");
        reveal_strlit("TableOverflow");
        reveal_strlit("IndexInternal");
        reveal_strlit("IndexLeaf");
    }
    match t {
        PageType::Free => "Free",
        PageType::TableLeaf => "TableLeaf",
        PageType::TableOverflow => "TableOverflow",
        PageType::IndexInternal => "IndexInternal",
        PageType::IndexLeaf => "IndexLeaf",
    }
}

/// A heap file: records stored in the slotted pages listed in `page_ids`,
/// each inserted into the first listed page with room, or into a new page.
pub struct HeapAccessMethod<A, P> where A: PageAccessor, P: PageManager {
    page_accessor: A,
    page_manager: P,
    page_ids: Vec<PageId>,
}

impl<A, P> HeapAccessMethod<A, P> where A: PageAccessor, P: PageManager {
    pub closed spec fn spec_accessor(&self) -> A {
        self.page_accessor
    }

    pub closed spec fn spec_manager(&self) -> P {
        self.page_manager
    }

    pub closed spec fn spec_page_ids(&self) -> Seq<PageId> {
        self.page_ids@
    }

    /// The page `page_id` as the heap holds it.
    pub open spec fn heap_page(&self, page_id: PageId) -> Option<Seq<u8>> {
        self.spec_accessor().page(page_id)
    }

    /// The heap's page `page_id` is what the store behind the accessor holds.
    pub open spec fn synced(&self, page_id: PageId) -> bool {
        self.spec_accessor().stored(page_id) == self.heap_page(page_id)
    }

    /// `page_id` is the first listed page with room for `len` bytes, and all the
    /// pages listed before it could be read.
    pub open spec fn is_first_fit(&self, len: nat, page_id: PageId) -> bool {
        exists|k: int|
            0 <= k < self.spec_page_ids().len() && self.spec_page_ids()[k] == page_id
                && self.heap_page(page_id) is Some && fits(
                self.spec_manager(),
                self.heap_page(page_id)->Some_0,
                len,
            ) && forall|j: int|
                0 <= j < k ==> #[trigger] self.heap_page(self.spec_page_ids()[j]) is Some && !fits(
                    self.spec_manager(),
                    self.heap_page(self.spec_page_ids()[j])->Some_0,
                    len,
                )
    }

    /// Every page listed before the first listing of `page_id` could be read and
    /// has no room for `len` bytes.
    pub open spec fn is_first_fit_before(&self, len: nat, page_id: PageId) -> bool {
        exists|k: int|
            0 <= k < self.spec_page_ids().len() && self.spec_page_ids()[k] == page_id && forall|j: int|
                0 <= j < k ==> #[trigger] self.spec_page_ids()[j] != page_id && self.heap_page(
                    self.spec_page_ids()[j],
                ) is Some && !fits(
                    self.spec_manager(),
                    self.heap_page(self.spec_page_ids()[j])->Some_0,
                    len,
                )
    }

    /// No listed page has room for `len` bytes, and all of them could be read.
    pub open spec fn none_fits(&self, len: nat) -> bool {
        forall|j: int|
            0 <= j < self.spec_page_ids().len() ==> #[trigger] self.heap_page(
                self.spec_page_ids()[j],
            ) is Some && !fits(
                self.spec_manager(),
                self.heap_page(self.spec_page_ids()[j])->Some_0,
                len,
            )
    }

    /// `new` is `self` after `record` went to `id`, into the page whose bytes
    /// were `b` before: either the first listed page with room, or a new
    /// table page added to the list.
    pub open spec fn inserted_via(&self, new: &Self, record: Seq<u8>, id: RecordId, b: Seq<u8>) -> bool {
        &&& leaf_check(self.spec_manager(), id.page_id, b) is Ok
        &&& self.spec_manager().spec_insert_record(b, record).1 == Ok::<SlotId, PageErrorView>(
            id.slot_id,
        )
        &&& new.heap_page(id.page_id) == Some(self.spec_manager().spec_insert_record(b, record).0)
        &&& ({
            ||| new.spec_page_ids() == self.spec_page_ids() && fits(
                self.spec_manager(),
                b,
                record.len(),
            ) && new.is_first_fit_before(record.len(), id.page_id) && (self.heap_page(
                id.page_id,
            ) is Some ==> self.heap_page(id.page_id) == Some(b))
            ||| new.spec_page_ids() == self.spec_page_ids().push(id.page_id) && b == self.fresh_leaf(
                id.page_id,
            ) && new.no_room_before(record.len(), self.spec_page_ids().len() as int, id.page_id)
        })
    }

    /// Each of the first `n` listed pages, other than `page_id`, could be read
    /// and has no room for `len` bytes.
    pub open spec fn no_room_before(&self, len: nat, n: int, page_id: PageId) -> bool {
        forall|j: int|
            #![trigger self.spec_page_ids()[j]]
            0 <= j < n && self.spec_page_ids()[j] != page_id ==> self.heap_page(
                self.spec_page_ids()[j],
            ) is Some && !fits(self.spec_manager(), self.heap_page(self.spec_page_ids()[j])->Some_0, len)
    }

    /// A freshly allocated table page `page_id`, of the accessor's page size.
    pub open spec fn fresh_leaf(&self, page_id: PageId) -> Seq<u8> {
        self.spec_manager().spec_init_page(
            zero_page(self.spec_accessor().spec_page_size()),
            page_id,
            PageType::TableLeaf,
        ).0
    }

    /// A heap over no pages yet.
    pub fn new(page_accessor: A, page_manager: P) -> (r: Self)
        ensures
            r.spec_accessor() == page_accessor,
            r.spec_manager() == page_manager,
            r.spec_page_ids() == Seq::<PageId>::empty(),
            r.can_insert(),
    {
        Self { page_accessor, page_manager, page_ids: Vec::new() }
    }

    /// A heap over the pages `page_ids`, as a heap left them.
    pub fn with_pages(page_accessor: A, page_manager: P, page_ids: Vec<PageId>) -> (r: Self)
        ensures
            r.spec_accessor() == page_accessor,
            r.spec_manager() == page_manager,
            r.spec_page_ids() == page_ids@,
            r.can_insert() == forall|j: int|
                0 <= j < page_ids@.len() ==> page_accessor.accessible(#[trigger] page_ids@[j]),
    {
        Self { page_accessor, page_manager, page_ids }
    }

    pub fn page_ids(&self) -> (r: &[PageId])
        ensures
            r@ == self.spec_page_ids(),
    {
        self.page_ids.as_slice()
    }

    /// The first listed page whose free space is at least the record's length.
    fn find_writable_page_id(&mut self, record: &[u8]) -> (r: AccessResult<Option<PageId>>)
        requires
            old(self).page_accessor.inv(),
            forall|j: int|
                0 <= j < old(self).page_ids@.len() ==> old(self).page_accessor.accessible(
                    #[trigger] old(self).page_ids@[j],
                ),
        ensures
            final(self).page_accessor.inv(),
            final(self).page_ids@ == old(self).page_ids@,
            final(self).page_manager == old(self).page_manager,
            final(self).page_accessor.spec_page_size() == old(self).page_accessor.spec_page_size(),
            forall|q: PageId| #[trigger]
                old(self).page_accessor.accessible(q) ==> final(self).page_accessor.accessible(q),
            r is Ok ==> forall|q: PageId| #[trigger]
                old(self).page_accessor.page(q) is Some ==> final(self).page_accessor.page(q) == old(
                    self).page_accessor.page(q),
            r matches Ok(Some(id)) ==> final(self).is_first_fit(record@.len(), id),
            r matches Ok(None) ==> final(self).none_fits(record@.len()),
            old(self).page_ids@.len() == 0 ==> (r matches Ok(None)) && final(self).page_accessor
                == old(self).page_accessor,
            r matches Err(e) ==> (exists|pid: PageId| #[trigger] A::read_refusal(pid, e@)) || (exists|
                b: Seq<u8>,
            | #[trigger] room_check(old(self).spec_manager(), b, record@.len()) == Err::<
                bool,
                AccessErrorView,
            >(e@)),
            r is Ok ==> forall|q: PageId| #[trigger] old(self).synced(q) ==> final(self).synced(q),
    {
        let ghost s0 = *self;
        let n = self.page_ids.len();
        let mut i: usize = 0;
        while i < n
            invariant
                0 <= i <= n,
                n == self.page_ids@.len(),
                s0 == *old(self),
                self.page_ids@ == s0.page_ids@,
                self.page_manager == s0.page_manager,
                i == 0 ==> self.page_accessor == s0.page_accessor,
                forall|q: PageId| #[trigger] s0.synced(q) ==> self.synced(q),
                self.page_accessor.inv(),
                self.page_accessor.spec_page_size() == s0.page_accessor.spec_page_size(),
                forall|q: PageId| #[trigger]
                    s0.page_accessor.accessible(q) ==> self.page_accessor.accessible(q),
                forall|q: PageId| #[trigger]
                    s0.page_accessor.page(q) is Some ==> self.page_accessor.page(q)
                        == s0.page_accessor.page(q),
                forall|j: int|
                    0 <= j < s0.page_ids@.len() ==> s0.page_accessor.accessible(
                        #[trigger] s0.page_ids@[j],
                    ),
                forall|j: int|
                    0 <= j < i ==> #[trigger] self.heap_page(self.spec_page_ids()[j]) is Some && !fits(
                        self.spec_manager(),
                        self.heap_page(self.spec_page_ids()[j])->Some_0,
                        record@.len(),
                    ),
            decreases n - i,
        {
            let page_id = self.page_ids[i];
            assert(s0.page_accessor.accessible(s0.page_ids@[i as int]));
            let ghost s1 = *self;
            let page = self.page_accessor.read_page(page_id)?;
            proof {
                assert forall|q: PageId| #[trigger]
                    s0.page_accessor.page(q) is Some implies self.page_accessor.page(q)
                        == s0.page_accessor.page(q) by {
                    assert(s1.page_accessor.page(q) == s0.page_accessor.page(q));
                }
                assert forall|j: int| 0 <= j < i implies #[trigger] self.heap_page(self.spec_page_ids()[j]) is Some && !fits(
                        self.spec_manager(),
                        self.heap_page(self.spec_page_ids()[j])->Some_0,
                        record@.len(),
                    ) by {
                    assert(s1.heap_page(s1.spec_page_ids()[j]) is Some);
                }
                assert(self.heap_page(page_id) == Some(page@));
            }
            let has_room = match self.has_room_for(page.as_slice(), record.len()) {
                Ok(has_room) => has_room,
                Err(e) => {
                    assert(room_check(s0.spec_manager(), page@, record@.len()) == Err::<
                        bool,
                        AccessErrorView,
                    >(e@));
                    return Err(e);
                },
            };
            if has_room {
                assert(self.is_first_fit(record@.len(), page_id)) by {
                    assert(self.spec_page_ids()[i as int] == page_id);
                }
                return Ok(Some(page_id));
            }
            i = i + 1;
        }
        Ok(None)
    }

    /// Adds a new page, initialised as an empty table page, to the heap.
    fn allocate_table_leaf_page(&mut self) -> (r: AccessResult<PageId>)
        requires
            old(self).page_accessor.inv(),
        ensures
            final(self).page_accessor.inv(),
            final(self).page_manager == old(self).page_manager,
            final(self).page_accessor.spec_page_size() == old(self).page_accessor.spec_page_size(),
            r matches Ok(id) ==> {
                &&& final(self).page_ids@ == old(self).page_ids@.push(id)
                &&& old(self).spec_manager().spec_init_page(
                    zero_page(old(self).spec_accessor().spec_page_size()),
                    id,
                    PageType::TableLeaf,
                ).1 is Ok
                &&& final(self).heap_page(id) == Some(old(self).fresh_leaf(id))
                &&& final(self).page_accessor.accessible(id)
                &&& forall|q: PageId|
                    q != id && #[trigger] old(self).page_accessor.page(q) is Some
                        ==> final(self).page_accessor.page(q) == old(self).page_accessor.page(q)
                &&& forall|q: PageId| #[trigger]
                    old(self).page_accessor.accessible(q) ==> final(self).page_accessor.accessible(q)
            },
            r is Err ==> final(self).page_ids@ == old(self).page_ids@,
            r matches Err(e) ==> A::allocation_refusal(e@) || (exists|pid: PageId| #[trigger]
                A::write_refusal(pid, e@)) || (exists|pid: PageId| #[trigger] init_leaf(
                old(self).spec_manager(),
                old(self).spec_accessor().spec_page_size(),
                pid,
            ) == Err::<(), AccessErrorView>(e@)),
            r is Ok ==> forall|q: PageId| #[trigger] old(self).synced(q) ==> final(self).synced(q),
            r matches Ok(id) ==> final(self).synced(id),
    {
        let page_id = self.page_accessor.allocate_page()?;
        let mut page = vec![0_u8; self.page_accessor.page_size()];
        assert(page@ =~= zero_page(self.page_accessor.spec_page_size()));

        match self.page_manager.init_page(page.as_mut_slice(), page_id, PageType::TableLeaf) {
            Ok(()) => {},
            Err(e) => {
                assert(init_leaf(
                    old(self).spec_manager(),
                    old(self).spec_accessor().spec_page_size(),
                    page_id,
                ) == Err::<(), AccessErrorView>(AccessErrorView::Page(e@)));
                return Err(AccessError::Page(e));
            },
        }
        let ghost s1 = *self;
        self.page_accessor.write_page(page_id, page.as_slice())?;
        self.page_ids.push(page_id);

        Ok(page_id)
    }

    fn validate_table_leaf_page(&self, page_id: PageId, page: &[u8]) -> (r: AccessResult<()>)
        ensures
            access_result_view(r) == leaf_check(self.spec_manager(), page_id, page@),
    {
        let page_type = match self.page_manager.page_type(page) {
            Ok(t) => t,
            Err(e) => return Err(AccessError::Page(e)),
        };
        if page_type != PageType::TableLeaf {
            let mut message = String::from_str("expected TableLeaf page, but got ");
            message.append(page_type_name_str(page_type));
            return Err(AccessError::InvalidAccessPage { page_id, message });
        }
        Ok(())
    }

    /// The record in slot `record_id.slot_id` of `page`, which is page
    /// `record_id.page_id`: the page must be a table page, and the slot must
    /// hold a live record.
    pub fn read_from_page(&self, record_id: RecordId, page: &[u8]) -> (r: AccessResult<Vec<u8>>)
        ensures
            match r {
                Ok(v) => record_in_page(self.spec_manager(), record_id.page_id, page@, record_id.slot_id)
                    == Ok::<Seq<u8>, AccessErrorView>(v@),
                Err(e) => record_in_page(self.spec_manager(), record_id.page_id, page@, record_id.slot_id)
                    == Err::<Seq<u8>, AccessErrorView>(e@),
            },
    {
        self.validate_table_leaf_page(record_id.page_id(), page)?;

        match self.page_manager.read_record(page, record_id.slot_id()) {
            Ok(record) => Ok(slice_to_vec(record)),
            Err(e) => Err(AccessError::Page(e)),
        }
    }

    /// Whether `page` has room for a record of `len` bytes.
    pub fn has_room_for(&self, page: &[u8], len: usize) -> (r: AccessResult<bool>)
        ensures
            access_result_view(r) == room_check(self.spec_manager(), page@, len as nat),
    {
        match self.page_manager.free_space_size(page) {
            Ok(free_space_size) => Ok(free_space_size >= len),
            Err(e) => Err(AccessError::Page(e)),
        }
    }

    /// Inserts `record` into `page`, which is page `page_id`; the page must be
    /// a table page.
    pub fn insert_into_page(&self, page_id: PageId, page: &mut [u8], record: &[u8]) -> (r:
        AccessResult<SlotId>)
        ensures
            (final(page)@, access_result_view(r)) == insert_in_page(
                self.spec_manager(),
                page_id,
                old(page)@,
                record@,
            ),
            final(page)@.len() == old(page)@.len(),
    {
        self.validate_table_leaf_page(page_id, page)?;
        match self.page_manager.insert_record(page, record) {
            Ok(slot_id) => Ok(slot_id),
            Err(e) => Err(AccessError::Page(e)),
        }
    }

    /// Marks the record `record_id` deleted in `page`, which is page
    /// `record_id.page_id`; the page must be a table page.
    pub fn delete_from_page(&self, record_id: RecordId, page: &mut [u8]) -> (r: AccessResult<()>)
        ensures
            (final(page)@, access_result_view(r)) == delete_in_page(
                self.spec_manager(),
                record_id,
                old(page)@,
            ),
            final(page)@.len() == old(page)@.len(),
    {
        self.validate_table_leaf_page(record_id.page_id(), page)?;
        match self.page_manager.delete_record(page, record_id.slot_id()) {
            Ok(()) => Ok(()),
            Err(e) => Err(AccessError::Page(e)),
        }
    }
}

impl<A, P> AccessMethod for HeapAccessMethod<A, P> where A: PageAccessor, P: PageManager {
    open spec fn inv(&self) -> bool {
        self.spec_accessor().inv()
    }

    open spec fn record(&self, record_id: RecordId) -> Option<Seq<u8>> {
        match self.heap_page(record_id.page_id) {
            Some(page) => match record_in_page(
                self.spec_manager(),
                record_id.page_id,
                page,
                record_id.slot_id,
            ) {
                Ok(r) => Some(r),
                Err(_) => None,
            },
            None => None,
        }
    }

    closed spec fn can_insert(&self) -> bool {
        forall|j: int|
            0 <= j < self.page_ids@.len() ==> self.page_accessor.accessible(
                #[trigger] self.page_ids@[j],
            )
    }

    open spec fn can_access(&self, record_id: RecordId) -> bool {
        self.spec_accessor().accessible(record_id.page_id)
    }

    /// An error of the accessor on a read, write or allocation, or the error
    /// that measuring a page's room, initialising a new table page or
    /// inserting into a page gives.
    open spec fn insert_refusal(&self, record: Seq<u8>, e: AccessErrorView) -> bool {
        ||| (exists|pid: PageId| #[trigger] A::read_refusal(pid, e))
        ||| (exists|pid: PageId| #[trigger] A::write_refusal(pid, e))
        ||| A::allocation_refusal(e)
        ||| (exists|b: Seq<u8>| #[trigger] room_check(self.spec_manager(), b, record.len())
            == Err::<bool, AccessErrorView>(e))
        ||| (exists|pid: PageId| #[trigger] init_leaf(
            self.spec_manager(),
            self.spec_accessor().spec_page_size(),
            pid,
        ) == Err::<(), AccessErrorView>(e))
        ||| (exists|pid: PageId, b: Seq<u8>| #[trigger] insert_in_page(
            self.spec_manager(),
            pid,
            b,
            record,
        ).1 == Err::<SlotId, AccessErrorView>(e))
    }

    /// An error of the accessor reading the record's page, or the error that
    /// reading the record in that page gives.
    open spec fn read_refusal(&self, record_id: RecordId, e: AccessErrorView) -> bool {
        ||| A::read_refusal(record_id.page_id, e)
        ||| (self.heap_page(record_id.page_id) matches Some(b) && record_in_page(
            self.spec_manager(),
            record_id.page_id,
            b,
            record_id.slot_id,
        ) == Err::<Seq<u8>, AccessErrorView>(e))
    }

    /// An error of the accessor reading or writing the record's page, or the
    /// error that deleting the record in that page gives.
    open spec fn delete_refusal(&self, record_id: RecordId, e: AccessErrorView) -> bool {
        ||| A::read_refusal(record_id.page_id, e)
        ||| A::write_refusal(record_id.page_id, e)
        ||| (self.heap_page(record_id.page_id) matches Some(b) && delete_in_page(
            self.spec_manager(),
            record_id,
            b,
        ).1 == Err::<(), AccessErrorView>(e))
    }

    /// Puts the record in the first listed page whose free space is at least
    /// the record's length, or else in a new table page added to the list.
    fn insert(&mut self, record: &[u8]) -> (r: AccessResult<RecordId>)
        ensures
            r matches Ok(id) ==> exists|b: Seq<u8>| #[trigger] old(self).inserted_via(&*final(self), record@, id, b),
            r is Ok ==> final(self).spec_manager() == old(self).spec_manager(),
            r matches Ok(id) ==> forall|q: PageId|
                q != id.page_id && #[trigger] old(self).heap_page(q) is Some ==> final(self).heap_page(q)
                    == old(self).heap_page(q),
            r matches Ok(id) ==> forall|b: Seq<u8>, other: RecordId|
                #![trigger old(self).inserted_via(&*final(self), record@, id, b), old(self).record(other)]
                other.page_id == id.page_id && old(self).inserted_via(&*final(self), record@, id, b)
                    && old(self).heap_page(id.page_id) == Some(b) && old(
                    self).spec_manager().well_formed(b) && old(self).record(other) is Some
                    ==> final(self).record(other) == old(self).record(other),
            r is Ok ==> forall|q: PageId| #[trigger] old(self).synced(q) ==> final(self).synced(q),
            r matches Ok(id) ==> final(self).synced(id.page_id),
    {
        let ghost s0 = *self;
        let found = self.find_writable_page_id(record)?;
        let ghost s1 = *self;
        let page_id = match found {
            Some(page_id) => {
                proof {
                    let k = choose|k: int|
                        0 <= k < s1.spec_page_ids().len() && s1.spec_page_ids()[k] == page_id
                            && s1.heap_page(page_id) is Some && fits(
                            s1.spec_manager(),
                            s1.heap_page(page_id)->Some_0,
                            record@.len(),
                        ) && forall|j: int|
                            0 <= j < k ==> #[trigger] s1.heap_page(s1.spec_page_ids()[j]) is Some
                                && !fits(
                                s1.spec_manager(),
                                s1.heap_page(s1.spec_page_ids()[j])->Some_0,
                                record@.len(),
                            );
                    assert(s0.page_accessor.accessible(s0.page_ids@[k]));
                }
                page_id
            },
            None => self.allocate_table_leaf_page()?,
        };
        let ghost s2 = *self;
        let mut page = self.page_accessor.read_page(page_id)?;
        let ghost s3 = *self;
        let ghost b = page@;
        let slot_id = match self.insert_into_page(page_id, page.as_mut_slice(), record) {
            Ok(slot_id) => slot_id,
            Err(e) => {
                assert(insert_in_page(s0.spec_manager(), page_id, b, record@).1 == Err::<
                    SlotId,
                    AccessErrorView,
                >(e@));
                return Err(e);
            },
        };
        self.page_accessor.write_page(page_id, page.as_slice())?;
        proof {
            assert(self.page_accessor.page(page_id) == Some(page@));
            if found is Some {
                let k = choose|k: int|
                    0 <= k < s1.spec_page_ids().len() && s1.spec_page_ids()[k] == page_id
                        && s1.heap_page(page_id) is Some && fits(
                        s1.spec_manager(),
                        s1.heap_page(page_id)->Some_0,
                        record@.len(),
                    ) && forall|j: int|
                        0 <= j < k ==> #[trigger] s1.heap_page(s1.spec_page_ids()[j]) is Some
                            && !fits(
                            s1.spec_manager(),
                            s1.heap_page(s1.spec_page_ids()[j])->Some_0,
                            record@.len(),
                        );
                assert(b == s1.heap_page(page_id)->Some_0);
                assert forall|j: int| 0 <= j < k implies #[trigger] self.spec_page_ids()[j] != page_id
                    && self.heap_page(self.spec_page_ids()[j]) is Some && !fits(
                    self.spec_manager(),
                    self.heap_page(self.spec_page_ids()[j])->Some_0,
                    record@.len(),
                ) by {
                    assert(s1.heap_page(s1.spec_page_ids()[j]) is Some);
                    if self.spec_page_ids()[j] == page_id {
                        assert(s1.heap_page(s1.spec_page_ids()[j]) == s1.heap_page(page_id));
                    }
                }
                assert(self.is_first_fit_before(record@.len(), page_id));
                if s0.heap_page(page_id) is Some {
                    assert(s1.heap_page(page_id) == s0.heap_page(page_id));
                }
            } else {
                assert(b == s0.fresh_leaf(page_id));
                assert forall|j: int|
                    0 <= j < s0.spec_page_ids().len() && #[trigger] self.spec_page_ids()[j] != page_id
                    implies self.heap_page(self.spec_page_ids()[j]) is Some && !fits(
                    self.spec_manager(),
                    self.heap_page(self.spec_page_ids()[j])->Some_0,
                    record@.len(),
                ) by {
                    let q = s1.spec_page_ids()[j];
                    assert(self.spec_page_ids()[j] == q);
                    assert(s1.heap_page(q) is Some);
                    assert(s2.heap_page(q) == s1.heap_page(q));
                    assert(s3.heap_page(q) == s2.heap_page(q));
                }
                assert(self.no_room_before(record@.len(), s0.spec_page_ids().len() as int, page_id));
            }
            assert(leaf_check(s0.spec_manager(), page_id, b) is Ok);
            assert(s0.spec_manager().spec_insert_record(b, record@).1 == Ok::<SlotId, PageErrorView>(slot_id));
            assert(self.heap_page(page_id) == Some(s0.spec_manager().spec_insert_record(b, record@).0));
            assert(found is Some ==> self.spec_page_ids() == s0.spec_page_ids());
            assert(found is Some ==> fits(s0.spec_manager(), b, record@.len()));
            assert(found is None ==> self.spec_page_ids() == s0.spec_page_ids().push(page_id));
            assert(s0.inserted_via(&*self, record@, RecordId { page_id, slot_id }, b));
            lemma_record_after_insert(self.page_manager, page_id, b, record@);
            assert forall|j: int|
                0 <= j < self.page_ids@.len() implies self.page_accessor.accessible(
                #[trigger] self.page_ids@[j],
            ) by {
                if j < s0.page_ids@.len() {
                    assert(s0.page_accessor.accessible(s0.page_ids@[j]));
                }
            }
        }
        proof {
            let id = RecordId { page_id, slot_id };
            assert forall|b0: Seq<u8>, other: RecordId|
                #![trigger s0.inserted_via(&*self, record@, id, b0), s0.record(other)]
                other.page_id == id.page_id && s0.inserted_via(&*self, record@, id, b0) && s0.heap_page(
                    id.page_id,
                ) == Some(b0) && s0.spec_manager().well_formed(b0) && s0.record(other) is Some
                implies self.record(other) == s0.record(other) by {
                lemma_insert_keeps_records(self.page_manager, page_id, b0, record@, other.slot_id);
            }
        }
        Ok(RecordId::new(page_id, slot_id))
    }

    /// Reads the record's page and takes the record from it.
    fn read(&mut self, record_id: RecordId) -> (r: AccessResult<Vec<u8>>)
        ensures
            r is Ok ==> old(self).heap_page(record_id.page_id) is Some,
            old(self).heap_page(record_id.page_id) matches Some(b) && record_in_page(
                old(self).spec_manager(),
                record_id.page_id,
                b,
                record_id.slot_id,
            ) is Err ==> r is Err,
            final(self).spec_page_ids() == old(self).spec_page_ids(),
            final(self).spec_manager() == old(self).spec_manager(),
            r is Ok ==> forall|q: PageId| #[trigger] old(self).synced(q) ==> final(self).synced(q),
    {
        let page_id = record_id.page_id();
        let page = self.page_accessor.read_page(page_id)?;

        self.read_from_page(record_id, page.as_slice())
    }

    /// Marks the record's slot deleted and writes the page back.
    fn delete(&mut self, record_id: RecordId) -> (r: AccessResult<()>)
        ensures
            r is Ok ==> exists|b: Seq<u8>|
                {
                    &&& old(self).heap_page(record_id.page_id) == Some(b)
                    &&& leaf_check(old(self).spec_manager(), record_id.page_id, b) is Ok
                    &&& final(self).heap_page(record_id.page_id) == Some(
                        old(self).spec_manager().spec_delete_record(b, record_id.slot_id).0,
                    )
                },
            r is Ok ==> record_in_page(
                final(self).spec_manager(),
                record_id.page_id,
                final(self).heap_page(record_id.page_id)->Some_0,
                record_id.slot_id,
            ) == Err::<Seq<u8>, AccessErrorView>(
                AccessErrorView::Page(PageErrorView::DeletedSlot { slot_id: record_id.slot_id }),
            ),
            r is Ok ==> forall|q: PageId|
                q != record_id.page_id && #[trigger] old(self).heap_page(q) is Some ==> final(self).heap_page(q)
                    == old(self).heap_page(q),
            final(self).spec_page_ids() == old(self).spec_page_ids(),
            final(self).spec_manager() == old(self).spec_manager(),
            r is Ok ==> forall|q: PageId| #[trigger] old(self).synced(q) ==> final(self).synced(q),
            r is Ok ==> final(self).synced(record_id.page_id),
    {
        let page_id = record_id.page_id();
        let mut page = self.page_accessor.read_page(page_id)?;
        let ghost b = page@;

        self.delete_from_page(record_id, page.as_mut_slice())?;
        self.page_accessor.write_page(page_id, page.as_slice())?;
        proof {
            lemma_record_after_delete(self.page_manager, record_id.page_id, b, record_id.slot_id);
            assert(old(self).heap_page(record_id.page_id) == Some(b));
            assert(leaf_check(old(self).spec_manager(), record_id.page_id, b) is Ok);
            assert(self.heap_page(record_id.page_id) == Some(
                old(self).spec_manager().spec_delete_record(b, record_id.slot_id).0,
            ));
        }
        Ok(())
    }
}

} // verus!
