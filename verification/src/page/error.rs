use vstd::prelude::*;

verus! {

/// Errors raised while reading or changing the bytes of a page.
#[derive(Debug, Clone, PartialEq, Eq)]
pub enum PageError {
    InvalidPageSize { expected_min: usize, actual: usize },
    InvalidMagic { actual: u16 },
    InvalidPageType { actual: u8 },
    NotEnoughSpace { required: usize, available: usize },
    InvalidSlotId { slot_id: u16, slot_count: u16 },
    DeletedSlot { slot_id: u16 },
    CorruptedPage { message: String },
}

/// A `PageError` with its message taken as a sequence of characters.
pub enum PageErrorView {
    InvalidPageSize { expected_min: usize, actual: usize },
    InvalidMagic { actual: u16 },
    InvalidPageType { actual: u8 },
    NotEnoughSpace { required: usize, available: usize },
    InvalidSlotId { slot_id: u16, slot_count: u16 },
    DeletedSlot { slot_id: u16 },
    CorruptedPage { message: Seq<char> },
}

impl View for PageError {
    type V = PageErrorView;

    open spec fn view(&self) -> PageErrorView {
        match self {
            PageError::InvalidPageSize { expected_min, actual } => PageErrorView::InvalidPageSize {
                expected_min: *expected_min,
                actual: *actual,
            },
            PageError::InvalidMagic { actual } => PageErrorView::InvalidMagic { actual: *actual },
            PageError::InvalidPageType { actual } => PageErrorView::InvalidPageType {
                actual: *actual,
            },
            PageError::NotEnoughSpace { required, available } => PageErrorView::NotEnoughSpace {
                required: *required,
                available: *available,
            },
            PageError::InvalidSlotId { slot_id, slot_count } => PageErrorView::InvalidSlotId {
                slot_id: *slot_id,
                slot_count: *slot_count,
            },
            PageError::DeletedSlot { slot_id } => PageErrorView::DeletedSlot { slot_id: *slot_id },
            PageError::CorruptedPage { message } => PageErrorView::CorruptedPage {
                message: message@,
            },
        }
    }
}

pub type PageResult<T> = Result<T, PageError>;

/// A page result with its error taken by its view.
pub open spec fn page_result_view<T>(r: PageResult<T>) -> Result<T, PageErrorView> {
    match r {
        Ok(v) => Ok(v),
        Err(e) => Err(e@),
    }
}

} // verus!
