use vstd::prelude::*;

use crate::disk::PageId;
use crate::page::{PageError, PageErrorView};

verus! {

/// The errors of the access layer.
#[derive(Debug, Clone, PartialEq, Eq)]
pub enum AccessError {
    Page(PageError),
    PageNotFound { page_id: PageId },
    NoWritablePage,
    InvalidAccessPage { page_id: PageId, message: String },
}

/// An `AccessError` with its messages taken as sequences of characters.
pub enum AccessErrorView {
    Page(PageErrorView),
    PageNotFound { page_id: PageId },
    NoWritablePage,
    InvalidAccessPage { page_id: PageId, message: Seq<char> },
}

impl View for AccessError {
    type V = AccessErrorView;

    open spec fn view(&self) -> AccessErrorView {
        match self {
            AccessError::Page(e) => AccessErrorView::Page(e@),
            AccessError::PageNotFound { page_id } => AccessErrorView::PageNotFound {
                page_id: *page_id,
            },
            AccessError::NoWritablePage => AccessErrorView::NoWritablePage,
            AccessError::InvalidAccessPage { page_id, message } => AccessErrorView::InvalidAccessPage {
                page_id: *page_id,
                message: message@,
            },
        }
    }
}

pub type AccessResult<T> = Result<T, AccessError>;

/// An access result with its error taken by its view.
pub open spec fn access_result_view<T>(r: AccessResult<T>) -> Result<T, AccessErrorView> {
    match r {
        Ok(v) => Ok(v),
        Err(e) => Err(e@),
    }
}

impl From<PageError> for AccessError {
    fn from(error: PageError) -> (r: Self) {
        AccessError::Page(error)
    }
}

impl vstd::std_specs::convert::FromSpecImpl<PageError> for AccessError {
    open spec fn obeys_from_spec() -> bool {
        true
    }

    open spec fn from_spec(v: PageError) -> AccessError {
        AccessError::Page(v)
    }
}

} // verus!
