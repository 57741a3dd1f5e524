use lumen::common::test_utils::{
    assert_bytes_equal, create_test_page, first_difference, generate_test_data,
};

#[test]
fn test_generate_test_data() {
    let data = generate_test_data(256);
    assert_eq!(data.len(), 256);
    assert_eq!(data[0], 0);
    assert_eq!(data[255], 255);
}

#[test]
fn test_assert_bytes_equal() {
    let data1 = vec![1, 2, 3, 4];
    let data2 = vec![1, 2, 3, 4];
    assert_bytes_equal(&data1, &data2, "should be equal");
}

#[test]
fn test_generate_test_data_wraps_after_255() {
    let data = generate_test_data(600);
    assert_eq!(data.len(), 600);
    assert_eq!(data[256], 0);
    assert_eq!(data[257], 1);
    assert_eq!(data[599], 87);
    assert!(generate_test_data(0).is_empty());
}

#[test]
fn test_create_test_page_fills_with_the_pattern() {
    let page = create_test_page(4096, 0xAB);
    assert_eq!(page.len(), 4096);
    assert!(page.iter().all(|&b| b == 0xAB));
    assert!(create_test_page(0, 1).is_empty());
}

#[test]
fn test_first_difference() {
    assert_eq!(first_difference(&[1, 2, 3], &[1, 2, 3]), None);
    assert_eq!(first_difference(&[], &[]), None);
    assert_eq!(first_difference(&[1, 2, 3, 4], &[1, 2, 4, 4]), Some(2));
    assert_eq!(first_difference(&[9], &[1]), Some(0));
    assert_eq!(first_difference(&[1, 2, 3], &[1, 2, 3, 4]), Some(3));
    assert_eq!(first_difference(&[1, 2, 3, 4], &[1, 2]), Some(2));
    assert_eq!(first_difference(&[], &[5]), Some(0));
}
