use mini_rdbms_rs::page::{PageError, PageManager, PageType, SlottedPageManager};

fn fresh_page(len: usize) -> Vec<u8> {
    let mut page = vec![0xAA_u8; len];
    SlottedPageManager::new()
        .init_page(&mut page, 7, PageType::TableLeaf)
        .expect("failed to init page");
    page
}

#[test]
fn init_page_writes_an_empty_header() {
    let manager = SlottedPageManager::new();
    let page = fresh_page(64);

    assert_eq!(&page[0..2], &[0x01, 0xDB]);
    assert_eq!(&page[2..10], &7_u64.to_le_bytes());
    assert_eq!(page[10], 1);
    assert_eq!(&page[11..13], &[0, 0]);
    assert_eq!(&page[13..15], &25_u16.to_le_bytes());
    assert_eq!(&page[15..17], &64_u16.to_le_bytes());
    assert_eq!(&page[17..25], &u64::MAX.to_le_bytes());
    assert!(page[25..].iter().all(|b| *b == 0));
    assert_eq!(manager.page_type(&page), Ok(PageType::TableLeaf));
    assert_eq!(manager.free_space_size(&page), Ok(39));
    assert_eq!(
        manager.read_record(&page, 0),
        Err(PageError::InvalidSlotId {
            slot_id: 0,
            slot_count: 0
        })
    );
}

#[test]
fn inserted_records_read_back_and_use_up_free_space() {
    let manager = SlottedPageManager::new();
    let mut page = fresh_page(64);

    assert_eq!(manager.insert_record(&mut page, b"hello"), Ok(0));
    assert_eq!(manager.free_space_size(&page), Ok(29));
    assert_eq!(manager.insert_record(&mut page, b"world!"), Ok(1));
    assert_eq!(manager.free_space_size(&page), Ok(18));

    assert_eq!(manager.read_record(&page, 0), Ok(&b"hello"[..]));
    assert_eq!(manager.read_record(&page, 1), Ok(&b"world!"[..]));
    // records are packed from the end of the page
    assert_eq!(&page[59..64], b"hello");
    assert_eq!(&page[53..59], b"world!");
    assert_eq!(manager.page_type(&page), Ok(PageType::TableLeaf));
}

#[test]
fn insert_refuses_a_record_that_does_not_fit() {
    let manager = SlottedPageManager::new();
    let mut page = fresh_page(64);
    let before = page.clone();

    assert_eq!(
        manager.insert_record(&mut page, &[1_u8; 35]),
        Err(PageError::NotEnoughSpace {
            required: 40,
            available: 39
        })
    );
    assert_eq!(page, before);
    assert_eq!(manager.insert_record(&mut page, &[1_u8; 34]), Ok(0));
    assert_eq!(manager.free_space_size(&page), Ok(0));
    assert_eq!(manager.insert_record(&mut page, &[]), Err(PageError::NotEnoughSpace {
        required: 5,
        available: 0
    }));
}

#[test]
fn deleted_record_reads_as_deleted_and_others_stay() {
    let manager = SlottedPageManager::new();
    let mut page = fresh_page(128);

    manager.insert_record(&mut page, b"one").expect("insert one");
    manager.insert_record(&mut page, b"two").expect("insert two");

    assert_eq!(manager.delete_record(&mut page, 0), Ok(()));
    assert_eq!(
        manager.read_record(&page, 0),
        Err(PageError::DeletedSlot { slot_id: 0 })
    );
    assert_eq!(manager.read_record(&page, 1), Ok(&b"two"[..]));
    assert_eq!(
        manager.delete_record(&mut page, 0),
        Err(PageError::DeletedSlot { slot_id: 0 })
    );
    assert_eq!(
        manager.delete_record(&mut page, 2),
        Err(PageError::InvalidSlotId {
            slot_id: 2,
            slot_count: 2
        })
    );
}

#[test]
fn page_size_limits_are_enforced() {
    let manager = SlottedPageManager::new();

    let mut small = vec![0_u8; 29];
    assert_eq!(
        manager.init_page(&mut small, 0, PageType::Free),
        Err(PageError::InvalidPageSize {
            expected_min: 30,
            actual: 29
        })
    );
    let mut large = vec![0_u8; 65536];
    assert_eq!(
        manager.init_page(&mut large, 0, PageType::Free),
        Err(PageError::InvalidPageSize {
            expected_min: 0,
            actual: 65536
        })
    );
    let mut largest = vec![0_u8; 65535];
    assert_eq!(manager.init_page(&mut largest, 0, PageType::IndexLeaf), Ok(()));
    assert_eq!(manager.free_space_size(&largest), Ok(65510));
}

#[test]
fn damaged_headers_are_reported() {
    let manager = SlottedPageManager::new();

    let mut page = fresh_page(64);
    page[0] = 0x02;
    assert_eq!(
        manager.page_type(&page),
        Err(PageError::InvalidMagic { actual: 0xDB02 })
    );

    let mut page = fresh_page(64);
    page[10] = 9;
    assert_eq!(
        manager.page_type(&page),
        Err(PageError::InvalidPageType { actual: 9 })
    );

    let mut page = fresh_page(64);
    page[13..15].copy_from_slice(&70_u16.to_le_bytes());
    assert_eq!(
        manager.free_space_size(&page),
        Err(PageError::CorruptedPage {
            message: "free_start must be <= free_end: free_start=70, free_end=64".to_string()
        })
    );

    let mut page = fresh_page(64);
    page[15..17].copy_from_slice(&100_u16.to_le_bytes());
    assert_eq!(
        manager.free_space_size(&page),
        Err(PageError::CorruptedPage {
            message: "free_end must be <= page size: free_end=100, page_size=64".to_string()
        })
    );

    let mut page = fresh_page(64);
    page[13..15].copy_from_slice(&30_u16.to_le_bytes());
    assert_eq!(
        manager.free_space_size(&page),
        Err(PageError::CorruptedPage {
            message: "invalid free_start: expected=25, actual=30".to_string()
        })
    );
}

#[test]
fn damaged_slots_are_reported() {
    let manager = SlottedPageManager::new();

    let mut page = fresh_page(64);
    manager.insert_record(&mut page, b"abc").expect("insert");
    page[29] = 7;
    assert_eq!(
        manager.read_record(&page, 0),
        Err(PageError::CorruptedPage {
            message: "invalid slot flags: 7".to_string()
        })
    );

    let mut page = fresh_page(64);
    manager.insert_record(&mut page, b"abc").expect("insert");
    page[27..29].copy_from_slice(&10_u16.to_le_bytes());
    assert_eq!(
        manager.read_record(&page, 0),
        Err(PageError::CorruptedPage {
            message: "record range is out of page: start=61, end=71, page_size=64".to_string()
        })
    );
}

#[test]
fn page_types_convert_to_and_from_bytes() {
    let types = [
        PageType::Free,
        PageType::TableLeaf,
        PageType::TableOverflow,
        PageType::IndexInternal,
        PageType::IndexLeaf,
    ];
    for (byte, page_type) in types.iter().enumerate() {
        assert_eq!(u8::from(*page_type), byte as u8);
        assert_eq!(PageType::try_from(byte as u8), Ok(*page_type));
    }
    assert_eq!(
        PageType::try_from(5_u8),
        Err(PageError::InvalidPageType { actual: 5 })
    );
}

#[test]
fn init_ignores_old_bytes_and_free_space_follows_the_updates() {
    let manager = SlottedPageManager::new();
    let mut other = vec![0x55_u8; 128];
    manager
        .init_page(&mut other, 7, PageType::TableLeaf)
        .expect("failed to init page");
    let mut page = fresh_page(128);
    assert_eq!(page, other);

    manager.insert_record(&mut page, b"abc").expect("insert 1");
    manager.insert_record(&mut page, b"defgh").expect("insert 2");
    manager.delete_record(&mut page, 0).expect("delete 0");
    manager.insert_record(&mut page, b"i").expect("insert 3");
    assert_eq!(
        manager.free_space_size(&page),
        Ok(128 - 25 - (5 + 3) - (5 + 5) - (5 + 1))
    );
}
