use lumen::common::error::Error;
use lumen::storage::page::Page;
use lumen::storage::page_constants::{
    INVALID_PAGE_ID, PAGE_HEADER_SIZE, PAGE_SIZE, PAGE_USABLE_SIZE,
};
use lumen::storage::page_header::PageHeader;
use lumen::storage::page_type::PageType;

#[test]
fn test_page_size() {
    assert_eq!(std::mem::size_of::<Page>(), PAGE_SIZE);
}

#[test]
fn test_page_creation() {
    let page = Page::new();
    assert_eq!(page.size(), PAGE_SIZE);
    assert_eq!(page.header().unwrap().page_type, PageType::Header);
}

#[test]
fn test_page_header_access() {
    let mut page = Page::new();
    let mut header = page.header().unwrap();
    header.page_type = PageType::BTreeLeaf;
    header.page_id = 100;
    page.set_header(&header);

    let page_type = page.header().unwrap().page_type;
    let page_id = page.header().unwrap().page_id;

    assert_eq!(page_type, PageType::BTreeLeaf);
    assert_eq!(page_id, 100);
}

#[test]
fn test_page_data_access() {
    let mut page = Page::new();
    page.data_mut()[0] = 0x42;
    assert_eq!(page.data()[0], 0x42);
}

#[test]
fn test_page_initialization() {
    let page = Page::new();
    let page_type = page.header().unwrap().page_type;
    let page_id = page.header().unwrap().page_id;
    let lsn = page.header().unwrap().lsn;

    assert_eq!(page_type, PageType::Header);
    assert_eq!(page_id, INVALID_PAGE_ID);
    assert_eq!(lsn, 0);

    for &byte in page.data() {
        assert_eq!(byte, 0);
    }
}

#[test]
fn test_page_raw_access() {
    let mut page = Page::new();
    assert_eq!(page.raw().len(), PAGE_SIZE);
    assert_eq!(page.raw_mut().len(), PAGE_SIZE);

    page.raw_mut()[4] = PageType::BTreeLeaf.as_u8();
    assert_eq!(page.header().unwrap().page_type, PageType::BTreeLeaf);

    page.raw_mut()[PAGE_HEADER_SIZE] = 0xAB;
    assert_eq!(page.data()[0], 0xAB);
}

#[test]
fn test_page_sizes() {
    let page = Page::new();
    assert_eq!(page.size(), PAGE_SIZE);
    assert_eq!(page.usable_size(), PAGE_USABLE_SIZE);
    assert_eq!(page.data().len(), PAGE_USABLE_SIZE);
}

#[test]
fn test_header_cast_safety() {
    let mut page = Page::new();

    let mut header = page.header().unwrap();
    header.page_id = 12345;
    header.page_type = PageType::BTreeLeaf;
    page.set_header(&header);

    let page_id = page.header().unwrap().page_id;
    let page_type = page.header().unwrap().page_type;

    assert_eq!(page_id, 12345);
    assert_eq!(page_type, PageType::BTreeLeaf);

    let raw_page_type = page.raw()[4];
    assert_eq!(raw_page_type, PageType::BTreeLeaf.as_u8());
}

#[test]
fn test_new_page_exact_bytes() {
    let page = Page::new();
    let mut expected = vec![0u8; PAGE_SIZE];
    expected[4] = 0x01;
    expected[6] = 0xF0;
    expected[7] = 0x0F;
    assert_eq!(page.raw(), &expected[..]);
    assert_eq!(Page::default().raw(), &expected[..]);
    assert_eq!(page.header().unwrap(), PageHeader::default());
}

#[test]
fn test_set_header_keeps_the_data_area() {
    let mut page = Page::new();
    for (i, byte) in page.data_mut().iter_mut().enumerate() {
        *byte = (i % 253) as u8;
    }
    let header = PageHeader {
        page_id: 7,
        page_type: PageType::Overflow,
        flags: 3,
        free_space: 10,
        checksum: 0xCAFEBABE,
        lsn: 99,
    };
    page.set_header(&header);
    assert_eq!(page.header().unwrap(), header);
    assert_eq!(&page.raw()[..16], &header.to_bytes());
    for (i, &byte) in page.data().iter().enumerate() {
        assert_eq!(byte, (i % 253) as u8);
    }
}

#[test]
fn test_data_mut_keeps_the_header() {
    let mut page = Page::new();
    let before = page.header().unwrap();
    for byte in page.data_mut() {
        *byte = 0xFF;
    }
    assert_eq!(page.header().unwrap(), before);
    assert_eq!(page.raw()[15], 0);
    assert_eq!(page.raw()[16], 0xFF);
    assert_eq!(page.raw()[4095], 0xFF);
}

#[test]
fn test_header_reports_unknown_type_byte() {
    let mut page = Page::new();
    page.raw_mut()[4] = 0x2A;
    assert_eq!(page.header(), Err(Error::InvalidPageType(0x2A)));
    page.raw_mut()[4] = 0;
    assert_eq!(page.header(), Err(Error::InvalidPageType(0)));
}

#[test]
fn test_page_from_bytes() {
    let mut bytes = vec![0u8; PAGE_SIZE];
    for (i, byte) in bytes.iter_mut().enumerate() {
        *byte = (i % 256) as u8;
    }
    let page = Page::from_bytes(&bytes).unwrap();
    assert_eq!(page.raw(), &bytes[..]);
    assert!(matches!(Page::from_bytes(&bytes[1..]), Err(Error::InvalidInput(_))));
    assert!(matches!(Page::from_bytes(&[]), Err(Error::InvalidInput(_))));
    bytes.push(0);
    assert!(matches!(Page::from_bytes(&bytes), Err(Error::InvalidInput(_))));
}

#[test]
fn test_calculate_checksum_stores_little_endian_and_keeps_the_rest() {
    let mut page = Page::new();
    for (i, byte) in page.data_mut().iter_mut().enumerate() {
        *byte = (i * 3 % 256) as u8;
    }
    let before = page.raw().to_vec();
    let expected = lumen::storage::checksum::calculate_page_checksum(&before).unwrap();
    page.calculate_checksum().unwrap();
    assert_eq!(&page.raw()[8..12], &expected.to_le_bytes());
    assert_eq!(page.header().unwrap().checksum, expected);
    assert_eq!(&page.raw()[..8], &before[..8]);
    assert_eq!(&page.raw()[12..], &before[12..]);
}

#[test]
fn test_fresh_page_without_checksum_is_corrupted() {
    let page = Page::new();
    assert!(!page.verify_checksum());
    assert!(page.is_corrupted());
}
