use mini_rdbms_rs::access::{
    AccessError, AccessMethod, AccessResult, HeapAccessMethod, PageAccessor, RecordId,
};
use mini_rdbms_rs::disk::{DEFAULT_PAGE_SIZE, PageId};
use mini_rdbms_rs::page::{PageError, PageManager, PageType, SlottedPageManager};
use std::collections::HashMap;

#[derive(Debug)]
struct InMemoryPageAccessor {
    pages: HashMap<PageId, Vec<u8>>,
    next_page_id: PageId,
    page_size: usize,
}

impl InMemoryPageAccessor {
    fn new(page_size: usize) -> Self {
        Self {
            pages: HashMap::new(),
            next_page_id: 0,
            page_size,
        }
    }
}

impl PageAccessor for InMemoryPageAccessor {
    fn allocate_page(&mut self) -> AccessResult<PageId> {
        let page_id = self.next_page_id;
        self.next_page_id += 1;

        self.pages.insert(page_id, vec![0_u8; self.page_size]);

        Ok(page_id)
    }

    fn read_page(&mut self, page_id: PageId) -> AccessResult<Vec<u8>> {
        self.pages
            .get(&page_id)
            .cloned()
            .ok_or(AccessError::PageNotFound { page_id })
    }

    fn write_page(&mut self, page_id: PageId, page: &[u8]) -> AccessResult<()> {
        if !self.pages.contains_key(&page_id) {
            return Err(AccessError::PageNotFound { page_id });
        }

        self.pages.insert(page_id, page.to_vec());

        Ok(())
    }

    fn page_size(&self) -> usize {
        self.page_size
    }
}

fn new_heap_access_method() -> HeapAccessMethod<InMemoryPageAccessor, SlottedPageManager> {
    HeapAccessMethod::new(
        InMemoryPageAccessor::new(DEFAULT_PAGE_SIZE),
        SlottedPageManager::new(),
    )
}

#[test]
fn insert_stores_record_and_returns_record_id() {
    let mut access_method = new_heap_access_method();

    let record_id = access_method
        .insert(b"hello")
        .expect("failed to insert record");

    assert_eq!(record_id.page_id(), 0);
    assert_eq!(record_id.slot_id(), 0);
    assert_eq!(access_method.page_ids(), &[0]);
}

#[test]
fn read_returns_inserted_record() {
    let mut access_method = new_heap_access_method();

    let record_id = access_method
        .insert(b"hello")
        .expect("failed to insert record");

    let record = access_method
        .read(record_id)
        .expect("failed to read record");

    assert_eq!(record, b"hello");
}

#[test]
fn insert_multiple_records_into_same_page() {
    let mut access_method = new_heap_access_method();

    let first_record_id = access_method
        .insert(b"first")
        .expect("failed to insert first record");

    let second_record_id = access_method
        .insert(b"second")
        .expect("failed to insert second record");

    assert_eq!(first_record_id.page_id(), second_record_id.page_id());
    assert_ne!(first_record_id.slot_id(), second_record_id.slot_id());

    assert_eq!(
        access_method
            .read(first_record_id)
            .expect("failed to read first record"),
        b"first"
    );

    assert_eq!(
        access_method
            .read(second_record_id)
            .expect("failed to read second record"),
        b"second"
    );
}

#[test]
fn delete_marks_record_as_deleted() {
    let mut access_method = new_heap_access_method();

    let record_id = access_method
        .insert(b"hello")
        .expect("failed to insert record");

    access_method
        .delete(record_id)
        .expect("failed to delete record");

    let result = access_method.read(record_id);

    assert!(matches!(
        result,
        Err(AccessError::Page(PageError::DeletedSlot { slot_id: 0 }))
    ));
}

#[test]
fn read_returns_page_not_found_when_page_does_not_exist() {
    let mut access_method = new_heap_access_method();
    let record_id = RecordId::new(999, 0);

    let result = access_method.read(record_id);

    assert!(matches!(
        result,
        Err(AccessError::PageNotFound { page_id: 999 })
    ));
}

#[test]
fn insert_allocates_new_page_when_current_page_has_no_space() {
    let mut access_method =
        HeapAccessMethod::new(InMemoryPageAccessor::new(64), SlottedPageManager::new());

    access_method
        .insert(&[1_u8; 20])
        .expect("failed to insert first record");

    access_method
        .insert(&[2_u8; 20])
        .expect("failed to insert second record");

    assert!(access_method.page_ids().len() >= 2);
}

#[test]
fn read_refuses_a_page_that_is_not_a_table_page() {
    let mut accessor = InMemoryPageAccessor::new(DEFAULT_PAGE_SIZE);
    let page_id = accessor.allocate_page().expect("failed to allocate page");
    let manager = SlottedPageManager::new();
    let mut page = vec![0_u8; DEFAULT_PAGE_SIZE];
    manager
        .init_page(&mut page, page_id, PageType::IndexLeaf)
        .expect("failed to init page");
    accessor
        .write_page(page_id, &page)
        .expect("failed to write page");

    let mut access_method = HeapAccessMethod::with_pages(accessor, manager, vec![page_id]);
    let result = access_method.read(RecordId::new(page_id, 0));

    assert_eq!(
        result,
        Err(AccessError::InvalidAccessPage {
            page_id,
            message: "expected TableLeaf page, but got IndexLeaf".to_string(),
        })
    );
}

#[test]
fn read_from_page_takes_the_record_from_the_given_page() {
    let manager = SlottedPageManager::new();
    let mut page = vec![0_u8; 128];
    manager
        .init_page(&mut page, 3, PageType::TableLeaf)
        .expect("failed to init page");
    let slot_id = manager
        .insert_record(&mut page, b"abc")
        .expect("failed to insert record");

    let access_method =
        HeapAccessMethod::new(InMemoryPageAccessor::new(128), SlottedPageManager::new());

    assert_eq!(
        access_method.read_from_page(RecordId::new(3, slot_id), &page),
        Ok(b"abc".to_vec())
    );
    assert_eq!(
        access_method.read_from_page(RecordId::new(3, slot_id + 1), &page),
        Err(AccessError::Page(PageError::InvalidSlotId { slot_id: slot_id + 1, slot_count: 1 }))
    );
}

#[test]
fn page_level_steps_of_the_heap() {
    let manager = SlottedPageManager::new();
    let mut page = vec![0_u8; 128];
    manager
        .init_page(&mut page, 5, PageType::TableLeaf)
        .expect("failed to init page");
    let access_method =
        HeapAccessMethod::new(InMemoryPageAccessor::new(128), SlottedPageManager::new());

    let free = manager.free_space_size(&page).expect("free space");
    assert_eq!(access_method.has_room_for(&page, free), Ok(true));
    assert_eq!(access_method.has_room_for(&page, free + 1), Ok(false));

    let slot_id = access_method
        .insert_into_page(5, &mut page, b"xyz")
        .expect("failed to insert");
    assert_eq!(slot_id, 0);
    assert_eq!(
        access_method.read_from_page(RecordId::new(5, slot_id), &page),
        Ok(b"xyz".to_vec())
    );

    access_method
        .delete_from_page(RecordId::new(5, slot_id), &mut page)
        .expect("failed to delete");
    assert_eq!(
        access_method.read_from_page(RecordId::new(5, slot_id), &page),
        Err(AccessError::Page(PageError::DeletedSlot { slot_id }))
    );

    let mut index_page = vec![0_u8; 128];
    manager
        .init_page(&mut index_page, 6, PageType::IndexLeaf)
        .expect("failed to init page");
    let before = index_page.clone();
    assert_eq!(
        access_method.insert_into_page(6, &mut index_page, b"xyz"),
        Err(AccessError::InvalidAccessPage {
            page_id: 6,
            message: "expected TableLeaf page, but got IndexLeaf".to_string(),
        })
    );
    assert_eq!(index_page, before);
}
