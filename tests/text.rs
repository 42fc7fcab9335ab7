use batch_payments::keys::parse_key_bytes;
use batch_payments::text::{decimal_string, find_comma, parse_decimal, strip, Strip};

#[test]
fn strip_removes_unicode_white_space() {
    assert_eq!(strip(" \t\u{3000}ab c\u{a0}\n", Strip::Whitespace), "ab c");
    assert_eq!(strip("   ", Strip::Whitespace), "");
    assert_eq!(strip("[[1,2]]", Strip::Brackets), "1,2");
}

#[test]
fn find_comma_from_position() {
    assert_eq!(find_comma("a,b,c", 0), 1);
    assert_eq!(find_comma("a,b,c", 2), 3);
    assert_eq!(find_comma("a,b,c", 4), 5);
    assert_eq!(find_comma("é,x", 0), 1);
}

#[test]
fn decimal_parsing_bounds() {
    assert_eq!(parse_decimal("255", 255), Some(255));
    assert_eq!(parse_decimal("256", 255), None);
    assert_eq!(parse_decimal("007", 255), Some(7));
    assert_eq!(parse_decimal("", 255), None);
    assert_eq!(decimal_string(1234567890), "1234567890");
}

#[test]
fn key_bytes_with_brackets() {
    assert_eq!(parse_key_bytes("[1, 2, 255]"), vec![1u8, 2, 255]);
}

#[test]
fn key_bytes_skip_bad_fields() {
    assert_eq!(parse_key_bytes("1,x,256, 3 ,"), vec![1u8, 3]);
    assert_eq!(parse_key_bytes(""), Vec::<u8>::new());
    assert_eq!(parse_key_bytes("[]"), Vec::<u8>::new());
}
