use rustcoin::text::{push_decimal, push_quoted, push_str};

fn decimal(n: u64) -> Vec<u8> {
    let mut buf = Vec::new();
    push_decimal(&mut buf, n);
    buf
}

#[test]
fn decimal_of_small_and_large_numbers() {
    assert_eq!(decimal(0), b"0".to_vec());
    assert_eq!(decimal(7), b"7".to_vec());
    assert_eq!(decimal(10), b"10".to_vec());
    assert_eq!(decimal(50), b"50".to_vec());
    assert_eq!(decimal(1_000_000), b"1000000".to_vec());
    assert_eq!(decimal(u64::MAX), b"18446744073709551615".to_vec());
}

#[test]
fn decimal_agrees_with_display() {
    for n in [1u64, 9, 11, 99, 100, 101, 12345, 9_007_199_254_740_993, u64::MAX - 1] {
        assert_eq!(decimal(n), n.to_string().into_bytes());
    }
}

#[test]
fn decimal_appends_to_what_is_there() {
    let mut buf = b"n=".to_vec();
    push_decimal(&mut buf, 42);
    push_decimal(&mut buf, 0);
    assert_eq!(buf, b"n=420".to_vec());
}

#[test]
fn strings_are_appended_as_utf8() {
    let mut buf = Vec::new();
    push_str(&mut buf, "a\u{e9}");
    push_str(&mut buf, "");
    push_str(&mut buf, "\u{1f600}");
    assert_eq!(buf, "a\u{e9}\u{1f600}".as_bytes().to_vec());
}

#[test]
fn quoted_strings_are_escaped() {
    let mut buf = Vec::new();
    push_quoted(&mut buf, "plain");
    assert_eq!(buf, b"\"plain\"".to_vec());
    let mut buf = Vec::new();
    push_quoted(&mut buf, "a\"b\\c\n");
    assert_eq!(buf, b"\"a\\\"b\\\\c\\n\"".to_vec());
}
