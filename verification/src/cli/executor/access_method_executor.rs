use vstd::prelude::*;

use crate::access::{AccessMethod, RecordId};
use crate::cli::executor::{ExecutionOutput, ExecutionPlan, ExecutorError, ExecutorResult};

verus! {

/// Runs execution plans.
///
/// `accepts(plan)` holds where running `plan` will not exhaust a counter of
/// the layers below.
///
/// Each implementation defines the spec functions; their default bodies leave
/// them unspecified, for implementations outside the verified code.
pub trait Executor: Sized {
    closed spec fn inv(&self) -> bool {
        arbitrary()
    }

    closed spec fn accepts(&self, plan: ExecutionPlan) -> bool {
        arbitrary()
    }

    fn execute(&mut self, plan: ExecutionPlan) -> (r: ExecutorResult<ExecutionOutput>)
        requires
            old(self).inv(),
            old(self).accepts(plan),
        ensures
            final(self).inv(),
            r matches Ok(output) ==> match plan {
                ExecutionPlan::Insert { .. } => output is Inserted,
                ExecutionPlan::SelectById { .. } => output is Selected,
                ExecutionPlan::DeleteById { .. } => output is Deleted,
            },
    ;
}

/// Runs each plan as one call of an access method.
pub struct AccessMethodExecutor<A> where A: AccessMethod {
    access_method: A,
}

impl<A> AccessMethodExecutor<A> where A: AccessMethod {
    pub closed spec fn spec_access_method(&self) -> A {
        self.access_method
    }

    pub fn new(access_method: A) -> (r: Self)
        ensures
            r.spec_access_method() == access_method,
    {
        Self { access_method }
    }

    pub fn access_method(&self) -> (r: &A)
        ensures
            *r == self.spec_access_method(),
    {
        &self.access_method
    }

    pub fn access_method_mut(&mut self) -> (r: &mut A)
        ensures
            *r == old(self).spec_access_method(),
            final(self).spec_access_method() == *final(r),
    {
        &mut self.access_method
    }
}

impl<A> Executor for AccessMethodExecutor<A> where A: AccessMethod {
    open spec fn inv(&self) -> bool {
        self.spec_access_method().inv()
    }

    open spec fn accepts(&self, plan: ExecutionPlan) -> bool {
        match plan {
            ExecutionPlan::Insert { .. } => self.spec_access_method().can_insert(),
            ExecutionPlan::SelectById { record_id } => self.spec_access_method().can_access(record_id),
            ExecutionPlan::DeleteById { record_id } => self.spec_access_method().can_access(record_id),
        }
    }

    /// An insertion reports where the record went, a selection returns the
    /// record, and a deletion reports one affected row; an error of the access
    /// method is passed on as `ExecutorError::Access`, and is one the access
    /// method may answer to that operation. What the access method's call keeps
    /// (the other records, and what later plans need) is kept.
    fn execute(&mut self, plan: ExecutionPlan) -> (r: ExecutorResult<ExecutionOutput>)
        ensures
            r matches Ok(ExecutionOutput::Inserted { record_id }) ==> (plan matches ExecutionPlan::Insert {
                record,
            } && final(self).spec_access_method().record(record_id) == Some(record@)),
            r matches Ok(ExecutionOutput::Selected { record }) ==> (plan matches ExecutionPlan::SelectById {
                record_id,
            } && old(self).spec_access_method().record(record_id) == Some(record@)),
            r matches Ok(ExecutionOutput::Deleted { affected_rows }) ==> affected_rows == 1,
            r matches Ok(ExecutionOutput::Inserted { record_id }) ==> final(
                self).spec_access_method().can_access(record_id) && forall|q: RecordId|
                q.page_id != record_id.page_id && #[trigger] old(
                    self).spec_access_method().record(q) is Some ==> final(
                    self).spec_access_method().record(q) == old(self).spec_access_method().record(q),
            r is Ok ==> match plan {
                ExecutionPlan::Insert { .. } => final(self).spec_access_method().can_insert(),
                ExecutionPlan::SelectById { .. } => forall|q: RecordId| #[trigger]
                    old(self).spec_access_method().record(q) is Some ==> final(
                        self).spec_access_method().record(q) == old(self).spec_access_method().record(q),
                ExecutionPlan::DeleteById { record_id } => forall|q: RecordId|
                    q.page_id != record_id.page_id && #[trigger] old(
                        self).spec_access_method().record(q) is Some ==> final(
                        self).spec_access_method().record(q) == old(self).spec_access_method().record(q),
            },
            r is Ok || plan is SelectById ==> (old(self).spec_access_method().can_insert() ==> final(
                self).spec_access_method().can_insert()) && forall|q: RecordId| #[trigger]
                old(self).spec_access_method().can_access(q) ==> final(self).spec_access_method().can_access(q),
            r matches Err(ExecutorError::Access(e)) ==> match plan {
                ExecutionPlan::Insert { record } => old(
                    self,
                ).spec_access_method().insert_refusal(record@, e@),
                ExecutionPlan::SelectById { record_id } => old(
                    self,
                ).spec_access_method().read_refusal(record_id, e@),
                ExecutionPlan::DeleteById { record_id } => old(
                    self,
                ).spec_access_method().delete_refusal(record_id, e@),
            },
            r matches Ok(ExecutionOutput::Deleted { .. }) ==> (plan matches ExecutionPlan::DeleteById {
                record_id,
            } && final(self).spec_access_method().record(record_id) is None),
    {
        match plan {
            ExecutionPlan::Insert { record } => {
                let record_id = match self.access_method.insert(record.as_slice()) {
                    Ok(record_id) => record_id,
                    Err(e) => return Err(ExecutorError::Access(e)),
                };
                Ok(ExecutionOutput::Inserted { record_id })
            },
            ExecutionPlan::SelectById { record_id } => {
                let record = match self.access_method.read(record_id) {
                    Ok(record) => record,
                    Err(e) => return Err(ExecutorError::Access(e)),
                };
                Ok(ExecutionOutput::Selected { record })
            },
            ExecutionPlan::DeleteById { record_id } => {
                match self.access_method.delete(record_id) {
                    Ok(()) => {},
                    Err(e) => return Err(ExecutorError::Access(e)),
                }
                Ok(ExecutionOutput::Deleted { affected_rows: 1 })
            },
        }
    }
}

} // verus!
