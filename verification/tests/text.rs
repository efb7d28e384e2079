use clickpack_db::text::decimal_string;

#[test]
fn decimal_of_zero() {
    assert_eq!(decimal_string(0), "0");
}

#[test]
fn decimal_of_small_and_large() {
    assert_eq!(decimal_string(7), "7");
    assert_eq!(decimal_string(10), "10");
    assert_eq!(decimal_string(120_045), "120045");
    assert_eq!(decimal_string(u32::MAX), "4294967295");
}
