use triops::number::{is_address, usize_from_str};

#[test]
fn parses_hex_after_0x() {
    assert_eq!(usize_from_str("0x20000000"), 0x2000_0000);
    assert_eq!(usize_from_str("0x1F"), 31);
    assert_eq!(usize_from_str("0xFf"), 255);
    // every leading 0x is dropped
    assert_eq!(usize_from_str("0x0x10"), 16);
    assert_eq!(usize_from_str("0x+1f"), 31);
}

#[test]
fn parses_decimal_otherwise() {
    assert_eq!(usize_from_str("536870912"), 536_870_912);
    assert_eq!(usize_from_str("+7"), 7);
    assert_eq!(usize_from_str("0"), 0);
}

#[test]
fn refuses_what_is_no_number() {
    assert!(is_address("0x20000000"));
    assert!(is_address("17"));
    assert!(!is_address("foo"));
    assert!(!is_address(""));
    assert!(!is_address("0x"));
    assert!(!is_address("+"));
    assert!(!is_address("12a"));
    assert!(!is_address("-1"));
    assert!(!is_address("99999999999999999999999"));
}
