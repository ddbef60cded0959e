use cobalt_aws::text::decimal_string;

#[test]
fn decimal_numerals() {
    assert_eq!(decimal_string(0), "0");
    assert_eq!(decimal_string(7), "7");
    assert_eq!(decimal_string(10), "10");
    assert_eq!(decimal_string(4566), "4566");
    assert_eq!(decimal_string(u64::MAX), u64::MAX.to_string());
}
