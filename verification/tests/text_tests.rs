use genvm::text::{starts_with_str, str_equal, u128_to_decimal};

#[test]
fn text_helpers() {
    assert_eq!(u128_to_decimal(0), "0");
    assert_eq!(u128_to_decimal(u128::MAX), u128::MAX.to_string());
    assert!(starts_with_str("héllo", "hé"));
    assert!(!starts_with_str("h", "hé"));
    assert!(str_equal("ä", "ä"));
    assert!(!str_equal("a", "ab"));
}
