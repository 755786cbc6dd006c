use vstd::prelude::*;

use crate::access::{AccessErrorView, AccessResult, RecordId};

verus! {

/// Stores records and finds them again by their `RecordId`.
///
/// `record(id)` is the record stored at `id`, if one can be read there.
/// `can_insert()` and `can_access(id)` hold where the operations will not
/// exhaust a counter of the layers below. `insert_refusal(record, e)`,
/// `read_refusal(id, e)` and `delete_refusal(id, e)` say which errors these
/// operations may give.
///
/// Each implementation defines the spec functions; their default bodies leave
/// them unspecified, for implementations outside the verified code.
pub trait AccessMethod: Sized {
    closed spec fn inv(&self) -> bool {
        arbitrary()
    }

    closed spec fn record(&self, record_id: RecordId) -> Option<Seq<u8>> {
        arbitrary()
    }

    closed spec fn can_insert(&self) -> bool {
        arbitrary()
    }

    closed spec fn can_access(&self, record_id: RecordId) -> bool {
        arbitrary()
    }

    closed spec fn insert_refusal(&self, record: Seq<u8>, e: AccessErrorView) -> bool {
        arbitrary()
    }

    closed spec fn read_refusal(&self, record_id: RecordId, e: AccessErrorView) -> bool {
        arbitrary()
    }

    closed spec fn delete_refusal(&self, record_id: RecordId, e: AccessErrorView) -> bool {
        arbitrary()
    }

    /// Stores `record` and returns where it went.
    fn insert(&mut self, record: &[u8]) -> (r: AccessResult<RecordId>)
        requires
            old(self).inv(),
            old(self).can_insert(),
        ensures
            final(self).inv(),
            r matches Ok(id) ==> final(self).record(id) == Some(record@),
            r matches Ok(id) ==> final(self).can_access(id),
            r matches Ok(id) ==> forall|other: RecordId|
                other.page_id != id.page_id && #[trigger] old(self).record(other) is Some
                    ==> final(self).record(other) == old(self).record(other),
            r is Ok ==> final(self).can_insert(),
            r is Ok ==> forall|other: RecordId| #[trigger] old(self).can_access(other) ==> final(self).can_access(other),
            r matches Err(e) ==> old(self).insert_refusal(record@, e@),
    ;

    /// Returns a copy of the record stored at `record_id`.
    fn read(&mut self, record_id: RecordId) -> (r: AccessResult<Vec<u8>>)
        requires
            old(self).inv(),
            old(self).can_access(record_id),
        ensures
            final(self).inv(),
            r matches Ok(record) ==> old(self).record(record_id) == Some(record@),
            r matches Err(e) ==> old(self).read_refusal(record_id, e@),
            r is Ok ==> forall|other: RecordId| #[trigger] old(self).record(other) is Some ==> final(self).record(other) == old(self).record(other),
            old(self).can_insert() ==> final(self).can_insert(),
            forall|other: RecordId| #[trigger] old(self).can_access(other) ==> final(self).can_access(other),
    ;

    /// Removes the record stored at `record_id`.
    fn delete(&mut self, record_id: RecordId) -> (r: AccessResult<()>)
        requires
            old(self).inv(),
            old(self).can_access(record_id),
        ensures
            final(self).inv(),
            r is Ok ==> final(self).record(record_id) is None,
            r matches Err(e) ==> old(self).delete_refusal(record_id, e@),
            r is Ok ==> forall|other: RecordId|
                other.page_id != record_id.page_id && #[trigger] old(self).record(other) is Some
                    ==> final(self).record(other) == old(self).record(other),
            r is Ok ==> (old(self).can_insert() ==> final(self).can_insert()),
            r is Ok ==> forall|other: RecordId| #[trigger] old(self).can_access(other) ==> final(self).can_access(other),
    ;
}

} // verus!
