use lumen::storage::page_constants::{
    PageId, INVALID_PAGE_ID, MAX_PAGE_ID, PAGE_HEADER_SIZE, PAGE_SIZE, PAGE_USABLE_SIZE,
};

#[test]
fn page_constants_test_page_constants() {
    assert_eq!(PAGE_SIZE, 4096);
    assert_eq!(PAGE_HEADER_SIZE, 16);
    assert_eq!(PAGE_USABLE_SIZE, 4080);
}

#[test]
fn page_constants_test_page_id_constants() {
    assert_eq!(INVALID_PAGE_ID, 0);
    assert_eq!(MAX_PAGE_ID, u32::MAX);
}

#[test]
fn page_constants_test_page_size_is_power_of_two() {
    assert!(PAGE_SIZE.is_power_of_two());
    assert_eq!(PAGE_SIZE, 4096);
}

#[test]
fn test_page_size_calculation() {
    assert_eq!(PAGE_HEADER_SIZE + PAGE_USABLE_SIZE, PAGE_SIZE);
}

#[test]
fn test_database_size_calculation() {
    let max_database_size = u64::from(MAX_PAGE_ID) * (PAGE_SIZE as u64);
    assert_eq!(max_database_size, 17_592_186_040_320);

    let sixteen_tb = 16u64 * 1024 * 1024 * 1024 * 1024;
    assert_eq!(sixteen_tb, 17_592_186_044_416);
    assert_eq!(sixteen_tb - max_database_size, 4096);
}

#[test]
fn test_page_constants_test_page_constants() {
    assert_eq!(PAGE_SIZE, 4096);
    assert_eq!(PAGE_HEADER_SIZE, 16);
    assert_eq!(PAGE_USABLE_SIZE, 4080);
}

#[test]
fn test_page_constants_test_page_id_constants() {
    assert_eq!(INVALID_PAGE_ID, 0);
    assert_eq!(MAX_PAGE_ID, u32::MAX);
}

#[test]
fn test_page_constants_test_page_size_is_power_of_two() {
    assert!(PAGE_SIZE.is_power_of_two());
    assert_eq!(PAGE_SIZE, 4096);
}

#[test]
fn test_page_id_is_thirty_two_bits() {
    assert_eq!(std::mem::size_of::<PageId>(), 4);
    assert!(PAGE_SIZE >= 4096);
}
