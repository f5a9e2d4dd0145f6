use host_agent::numerals::decimal_text;

#[test]
fn decimal_numbers() {
    assert_eq!(decimal_text(0), "0");
    assert_eq!(decimal_text(7), "7");
    assert_eq!(decimal_text(10), "10");
    assert_eq!(decimal_text(104857600), "104857600");
    assert_eq!(decimal_text(u64::MAX), "18446744073709551615");
}
