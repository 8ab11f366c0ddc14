use waj::text::{compare_bytes, decimal_string, eq_ignore_ascii_case, find_byte, Order};

#[test]
fn compare_bytes_orders_lexicographically() {
    assert_eq!(compare_bytes(b"a", b"b"), Order::Less);
    assert_eq!(compare_bytes(b"b", b"a"), Order::Greater);
    assert_eq!(compare_bytes(b"abc", b"abc"), Order::Equal);
    assert_eq!(compare_bytes(b"ab", b"abc"), Order::Less);
    assert_eq!(compare_bytes(b"abc", b"ab"), Order::Greater);
    assert_eq!(compare_bytes(b"", b""), Order::Equal);
    assert_eq!(compare_bytes(b"", b"\x00"), Order::Less);
    assert_eq!(compare_bytes(b"\xff", b"a"), Order::Greater);
}

#[test]
fn decimal_string_has_no_leading_zero() {
    assert_eq!(decimal_string(0), "0");
    assert_eq!(decimal_string(7), "7");
    assert_eq!(decimal_string(10), "10");
    assert_eq!(decimal_string(256), "256");
    assert_eq!(decimal_string(u64::MAX), "18446744073709551615");
}

#[test]
fn ascii_case_is_ignored_for_letters_only() {
    assert!(eq_ignore_ascii_case(b"Range", b"range"));
    assert!(eq_ignore_ascii_case(b"IF-NONE-MATCH", b"if-none-match"));
    assert!(!eq_ignore_ascii_case(b"host", b"hosts"));
    assert!(!eq_ignore_ascii_case(b"[", b"{"));
    assert!(!eq_ignore_ascii_case(b"@", b"`"));
}

#[test]
fn find_byte_returns_first_occurrence() {
    assert_eq!(find_byte(b"a?b?c", b'?'), Some(1));
    assert_eq!(find_byte(b"abc", b'?'), None);
    assert_eq!(find_byte(b"", b'?'), None);
}
