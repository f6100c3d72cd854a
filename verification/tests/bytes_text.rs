use bycat_http::bytes_text::{
    bytes_eq, decimal, extend_bytes, is_valid_header_value, is_visible_text, join_bytes,
    join_strings, parse_u64, str_bytes, visible_text,
};

#[test]
fn parse_u64_reads_plain_digits() {
    assert_eq!(parse_u64(b"0"), Some(0));
    assert_eq!(parse_u64(b"1024"), Some(1024));
    assert_eq!(parse_u64(b"007"), Some(7));
}

#[test]
fn parse_u64_accepts_one_leading_plus() {
    assert_eq!(parse_u64(b"+5"), Some(5));
    assert_eq!(parse_u64(b"+"), None);
    assert_eq!(parse_u64(b"++5"), None);
}

#[test]
fn parse_u64_refuses_empty_and_non_digits() {
    assert_eq!(parse_u64(b""), None);
    assert_eq!(parse_u64(b"-1"), None);
    assert_eq!(parse_u64(b"12a"), None);
    assert_eq!(parse_u64(b" 12"), None);
}

#[test]
fn parse_u64_bounds() {
    assert_eq!(parse_u64(b"18446744073709551615"), Some(u64::MAX));
    assert_eq!(parse_u64(b"18446744073709551616"), None);
    assert_eq!(parse_u64(b"99999999999999999999999"), None);
}

#[test]
fn decimal_writes_digits() {
    assert_eq!(decimal(0), b"0".to_vec());
    assert_eq!(decimal(42), b"42".to_vec());
    assert_eq!(decimal(u64::MAX), b"18446744073709551615".to_vec());
}

#[test]
fn decimal_reads_back() {
    for n in [0u64, 1, 9, 10, 413, 65536, u64::MAX] {
        assert_eq!(parse_u64(&decimal(n)), Some(n));
    }
}

#[test]
fn joins_bytes_and_strings() {
    let parts = vec![b"GET".to_vec(), b"POST".to_vec(), b"PUT".to_vec()];
    assert_eq!(join_bytes(&parts, b","), b"GET,POST,PUT".to_vec());
    assert_eq!(join_bytes(&Vec::new(), b","), Vec::<u8>::new());
    let words = vec!["cargo".to_string(), "build".to_string()];
    assert_eq!(join_strings(&words, " "), "cargo build");
    assert_eq!(join_strings(&vec!["one".to_string()], ", "), "one");
}

#[test]
fn header_value_bytes() {
    assert!(is_valid_header_value(b"text/plain; charset=utf-8"));
    assert!(is_valid_header_value(b"tab\there"));
    assert!(!is_valid_header_value(b"line\nbreak"));
    assert!(!is_valid_header_value(b"del\x7f"));
    assert!(is_valid_header_value(&[0x80, 0xff]));
}

#[test]
fn visible_text_reads_printable_ascii_only() {
    assert!(is_visible_text(b"abc 123"));
    assert!(is_visible_text(b"a\tb"));
    assert!(!is_visible_text(&[0xc3, 0xa9]));
    assert_eq!(visible_text(b"multipart/form-data"), Some("multipart/form-data"));
    assert_eq!(visible_text(&[0xc3, 0xa9]), None);
}

#[test]
fn bytes_helpers() {
    assert!(bytes_eq(b"OPTIONS", b"OPTIONS"));
    assert!(!bytes_eq(b"OPTIONS", b"options"));
    assert_eq!(str_bytes("é"), vec![0xc3, 0xa9]);
    let mut v = b"ab".to_vec();
    extend_bytes(&mut v, b"cd");
    assert_eq!(v, b"abcd".to_vec());
}
