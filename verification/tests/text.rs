use jsonrpc_udp::text::{decode, integer_text, natural_text, text_eq};

#[test]
fn integers_in_decimal() {
    assert_eq!(integer_text(0), "0");
    assert_eq!(integer_text(7), "7");
    assert_eq!(integer_text(10), "10");
    assert_eq!(integer_text(-1), "-1");
    assert_eq!(integer_text(-32700), "-32700");
    assert_eq!(integer_text(1234567890), "1234567890");
    assert_eq!(integer_text(i64::MAX), "9223372036854775807");
    assert_eq!(integer_text(i64::MIN), "-9223372036854775808");
}

#[test]
fn naturals_in_decimal() {
    assert_eq!(natural_text(0), "0");
    assert_eq!(natural_text(9), "9");
    assert_eq!(natural_text(100), "100");
    assert_eq!(natural_text(u64::MAX), "18446744073709551615");
}

#[test]
fn bytes_are_decoded_as_utf8() {
    assert_eq!(decode(b"abc"), Some("abc"));
    assert_eq!(decode("h\u{e9}llo \u{1f600}".as_bytes()), Some("h\u{e9}llo \u{1f600}"));
    assert_eq!(decode(b""), Some(""));
    assert_eq!(decode(b"\xff"), None);
    assert_eq!(decode(b"ab\xc3"), None);
    assert_eq!(decode(b"\xed\xa0\x80"), None);
}

#[test]
fn texts_are_compared_by_their_characters() {
    assert!(text_eq("jsonrpc", "jsonrpc"));
    assert!(text_eq("", ""));
    assert!(!text_eq("jsonrpc", "jsonrpC"));
    assert!(!text_eq("id", "ids"));
    assert!(!text_eq("ids", "id"));
    assert!(text_eq("\u{e9}", "\u{e9}"));
    assert!(!text_eq("\u{e9}", "e"));
}
