use lumen::storage::checksum::calculate_page_checksum;
use lumen::storage::page::Page;
use lumen::storage::page_constants::PAGE_USABLE_SIZE;
use lumen::storage::page_header::PageHeader;
use lumen::storage::page_type::PageType;

const ALL_TYPES: [PageType; 9] = [
    PageType::Header,
    PageType::TableMetadata,
    PageType::Data,
    PageType::BTreeInternal,
    PageType::BTreeLeaf,
    PageType::VectorIndex,
    PageType::Overflow,
    PageType::FreeList,
    PageType::BloomFilter,
];

fn edit_header(page: &mut Page, edit: impl FnOnce(&mut PageHeader)) {
    let mut header = page.header().unwrap();
    edit(&mut header);
    page.set_header(&header);
}

#[test]
fn test_page_boundaries() {
    let mut page = Page::new();

    let last_idx = PAGE_USABLE_SIZE - 1;
    page.data_mut()[last_idx] = 0xFF;
    assert_eq!(page.data()[last_idx], 0xFF);

    for i in 0..PAGE_USABLE_SIZE {
        page.data_mut()[i] = (i % 256) as u8;
    }

    for i in 0..PAGE_USABLE_SIZE {
        assert_eq!(page.data()[i], (i % 256) as u8);
    }
}

#[test]
fn test_page_header_field_independence() {
    let mut page = Page::new();

    edit_header(&mut page, |h| h.page_id = 0xDEADBEEF);
    let page_type = page.header().unwrap().page_type;
    let flags = page.header().unwrap().flags;
    assert_eq!(page_type, PageType::Header);
    assert_eq!(flags, 0);

    edit_header(&mut page, |h| h.page_type = PageType::VectorIndex);
    let page_id = page.header().unwrap().page_id;
    assert_eq!(page_id, 0xDEADBEEF);

    edit_header(&mut page, |h| h.flags = 0xFF);
    let page_type = page.header().unwrap().page_type;
    let page_id = page.header().unwrap().page_id;
    assert_eq!(page_type, PageType::VectorIndex);
    assert_eq!(page_id, 0xDEADBEEF);

    edit_header(&mut page, |h| h.free_space = 0xABCD);
    edit_header(&mut page, |h| h.checksum = 0x12345678);
    edit_header(&mut page, |h| h.lsn = 0x87654321);

    let header = page.header().unwrap();

    assert_eq!(header.page_id, 0xDEADBEEF);
    assert_eq!(header.page_type, PageType::VectorIndex);
    assert_eq!(header.flags, 0xFF);
    assert_eq!(header.free_space, 0xABCD);
    assert_eq!(header.checksum, 0x12345678);
    assert_eq!(header.lsn, 0x87654321);
}

#[test]
fn test_checksum_with_all_page_types() {
    for page_type in ALL_TYPES {
        let mut page = Page::new();
        edit_header(&mut page, |h| h.page_type = page_type);
        edit_header(&mut page, |h| h.page_id = page_type.as_u8() as u32);
        page.calculate_checksum().unwrap();
        assert!(page.verify_checksum());
    }
}

#[test]
fn test_page_corruption_patterns() {
    let mut page = Page::new();
    edit_header(&mut page, |h| h.page_type = PageType::Data);
    page.calculate_checksum().unwrap();

    let original_checksum = page.header().unwrap().checksum;

    let test_positions = [0, 100, 1000, 2048, 4095];
    for &pos in &test_positions {
        let original = page.raw()[pos];
        page.raw_mut()[pos] ^= 1;

        assert!(!page.verify_checksum());

        page.raw_mut()[pos] = original;
        assert!(page.verify_checksum());
    }

    edit_header(&mut page, |h| h.checksum = !original_checksum);
    assert!(!page.verify_checksum());

    page.calculate_checksum().unwrap();
    assert!(page.verify_checksum());
}

#[test]
fn test_max_values() {
    let mut page = Page::new();

    edit_header(&mut page, |h| {
        h.page_id = u32::MAX;
        h.flags = u8::MAX;
        h.free_space = u16::MAX;
        h.checksum = u32::MAX;
        h.lsn = u32::MAX;
    });

    for byte in page.data_mut() {
        *byte = u8::MAX;
    }

    page.calculate_checksum().unwrap();
    assert!(page.verify_checksum());
}

#[test]
fn test_zero_page_special_case() {
    let mut zero_page = Page::new();
    for byte in zero_page.raw_mut() {
        *byte = 0;
    }

    let checksum = calculate_page_checksum(zero_page.raw()).unwrap();
    assert_ne!(checksum, 0);

    zero_page.raw_mut()[8..12].copy_from_slice(&checksum.to_le_bytes());
    assert!(zero_page.verify_checksum());
}

#[test]
fn test_page_type_transitions() {
    let mut page = Page::new();

    for (i, &from_type) in ALL_TYPES.iter().enumerate() {
        for (j, &to_type) in ALL_TYPES.iter().enumerate() {
            edit_header(&mut page, |h| h.page_type = from_type);
            edit_header(&mut page, |h| h.page_id = i as u32);
            page.data_mut()[0] = i as u8;
            page.calculate_checksum().unwrap();

            edit_header(&mut page, |h| h.page_type = to_type);
            edit_header(&mut page, |h| h.page_id = j as u32);
            page.data_mut()[0] = j as u8;
            page.calculate_checksum().unwrap();

            assert!(page.verify_checksum());
            assert_eq!(page.header().unwrap().page_type, to_type);
        }
    }
}

#[test]
fn test_every_single_bit_flip_is_detected() {
    let mut page = Page::new();
    for (i, byte) in page.data_mut().iter_mut().enumerate() {
        *byte = (i * 31 % 256) as u8;
    }
    page.calculate_checksum().unwrap();
    assert!(page.verify_checksum());

    let mut pos = 0;
    while pos < 4096 {
        for bit in 0..8 {
            let original = page.raw()[pos];
            page.raw_mut()[pos] ^= 1 << bit;
            assert!(!page.verify_checksum());
            assert!(page.is_corrupted());
            page.raw_mut()[pos] = original;
            assert!(page.verify_checksum());
        }
        pos += if pos < 32 { 1 } else { 127 };
    }
}

#[test]
fn test_change_inside_the_checksum_field_fails_the_comparison() {
    let mut page = Page::new();
    page.calculate_checksum().unwrap();
    let computed = calculate_page_checksum(page.raw()).unwrap();
    for pos in 8..12 {
        let original = page.raw()[pos];
        page.raw_mut()[pos] = original.wrapping_add(1);
        assert_eq!(calculate_page_checksum(page.raw()).unwrap(), computed);
        assert!(!page.verify_checksum());
        page.raw_mut()[pos] = original;
        assert!(page.verify_checksum());
    }
}
