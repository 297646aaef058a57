use zenlog::text::{
    bytes_eq, decimal_string, find_char, prefixed_hex, push_decimal, push_hexadecimal,
    push_left_aligned, push_right_aligned, push_signed_decimal, starts_with, str_eq, truncated,
};

#[test]
fn equality_of_bytes_and_text() {
    assert!(bytes_eq(b"abc", b"abc"));
    assert!(!bytes_eq(b"abc", b"abd"));
    assert!(!bytes_eq(b"abc", b"ab"));
    assert!(bytes_eq(b"", b""));
    assert!(str_eq("ключ", "ключ"));
    assert!(!str_eq("ключ", "ключи"));
}

#[test]
fn find_char_gives_the_first_place_or_the_end() {
    assert_eq!(find_char("a.b.c", '.', 0, 5), 1);
    assert_eq!(find_char("a.b.c", '.', 2, 5), 3);
    assert_eq!(find_char("a.b.c", '.', 4, 5), 5);
    assert_eq!(find_char("a.b.c", '.', 0, 1), 1);
    assert_eq!(find_char("äö{", '{', 0, 3), 2);
}

#[test]
fn decimal_text_is_what_the_formatter_writes() {
    for n in [0u64, 1, 9, 10, 11, 99, 100, 12345, 4294967296, u64::MAX] {
        assert_eq!(decimal_string(n), format!("{}", n));
        let mut out = "n=".to_string();
        push_decimal(&mut out, n);
        assert_eq!(out, format!("n={}", n));
    }
    for i in [0i64, -1, 1, -10, 42, i64::MAX, i64::MIN, i64::MIN + 1] {
        let mut out = String::new();
        push_signed_decimal(&mut out, i);
        assert_eq!(out, format!("{}", i));
    }
}

#[test]
fn hexadecimal_text_is_what_the_formatter_writes() {
    for n in [0u64, 1, 15, 16, 255, 4096, 0xdeadbeef, u64::MAX] {
        let mut out = String::new();
        push_hexadecimal(&mut out, n);
        assert_eq!(out, format!("{:x}", n));
        assert_eq!(prefixed_hex(n, 14), format!("{:#014x}", n));
        assert_eq!(prefixed_hex(n, 6), format!("{:#06x}", n));
        assert_eq!(prefixed_hex(n, 0), format!("{:#x}", n));
    }
}

#[test]
fn alignment_is_what_the_formatter_does() {
    for text in ["", "a", "abcd", "abcdef", "abcdefgh", "äöü"] {
        let mut right = String::new();
        push_right_aligned(&mut right, text, 6);
        assert_eq!(right, format!("{:>6}", text));
        let mut left = String::new();
        push_left_aligned(&mut left, text, 6);
        assert_eq!(left, format!("{:<6}", text));
        assert_eq!(truncated(text, 4), format!("{:.4}", text));
    }
}

#[test]
fn starts_with_tests_the_prefix() {
    assert!(starts_with("zenlog::pipeline", "zenlog"));
    assert!(starts_with("zenlog", "zenlog"));
    assert!(!starts_with("zen", "zenlog"));
    assert!(!starts_with("mio::zenlog", "zenlog"));
    assert!(starts_with("anything", ""));
}
