use osv2osv::difference;
use osv2osv::text::{decimal_string, parse_u32, parse_u8, str_slice, zero_padded_string};

#[test]
fn difference_counts_differing_positions() {
    assert_eq!(difference("abc", "abd"), 1);
    assert_eq!(difference("abc", "xyz"), 3);
    assert_eq!(difference("abc", "ab"), 0);
    assert_eq!(difference("", "xyz"), 0);
    assert_eq!(difference("âbc", "abc"), 1);
}

#[test]
fn difference_laws_on_values() {
    let a = "0123456789abcdef";
    let b = "0123456789abcdee";
    assert_eq!(difference(a, b), difference(b, a));
    assert_eq!(difference(a, a), 0);
    assert!(difference(a, "ffffffffffffffff") as usize <= a.len());
}

#[test]
fn numbers_are_read_as_str_parse_reads_them() {
    assert_eq!(parse_u32("42"), Some(42));
    assert_eq!(parse_u32("+42"), Some(42));
    assert_eq!(parse_u32("4294967295"), Some(u32::MAX));
    assert_eq!(parse_u32("4294967296"), None);
    assert_eq!(parse_u32(""), None);
    assert_eq!(parse_u32("+"), None);
    assert_eq!(parse_u32("-1"), None);
    assert_eq!(parse_u32(" 1"), None);
    assert_eq!(parse_u8("255"), Some(255));
    assert_eq!(parse_u8("256"), None);
    assert_eq!(parse_u8("007"), Some(7));
}

#[test]
fn numbers_written_read_back() {
    for n in [0u32, 7, 10, 99, 100, 65535, u32::MAX] {
        assert_eq!(decimal_string(n), n.to_string());
        assert_eq!(parse_u32(&decimal_string(n)), Some(n));
    }
    assert_eq!(zero_padded_string(5, 3), "005");
    assert_eq!(zero_padded_string(48, 2), "48");
    assert_eq!(zero_padded_string(1234, 2), "1234");
}

#[test]
fn slicing_by_bytes() {
    assert_eq!(str_slice("Gemeente Delft", 0, 9), Some("Gemeente "));
    assert_eq!(str_slice("Fryslân", 0, 6), None);
    assert_eq!(str_slice("Fryslân", 0, 7), Some("Fryslâ"));
    assert_eq!(str_slice("abc", 2, 4), None);
    assert_eq!(str_slice("abc", 2, 1), None);
}
