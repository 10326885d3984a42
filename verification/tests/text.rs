use coord_agent::text::{
    contains_text, copy_bytes, decimal_int_text, decimal_text, holds_white, is_blank, join3, join5,
    same_bytes, same_text, starts_with_text, text_before,
};

#[test]
fn texts_are_compared_by_content() {
    assert!(same_text("", ""));
    assert!(same_text("kvé", "kvé"));
    assert!(!same_text("kv", "kv "));
    assert!(same_bytes(&[1, 2], &[1, 2]));
    assert!(!same_bytes(&[1, 2], &[1, 3]));
}

#[test]
fn text_order_is_that_of_bytes() {
    for (a, b) in [("", "a"), ("a", "ab"), ("ab", "b"), ("Z", "a"), ("z", "é"), ("é", "中")] {
        assert!(text_before(a, b), "{a} {b}");
        assert!(!text_before(b, a), "{b} {a}");
        assert!(a < b);
    }
    assert!(!text_before("a", "a"));
}

#[test]
fn blank_texts_hold_only_white_space() {
    assert!(is_blank(""));
    assert!(is_blank(" \t\n\u{3000}"));
    assert!(!is_blank(" x "));
    assert!(holds_white("a b"));
    assert!(!holds_white("ab"));
}

#[test]
fn parts_and_heads_are_found() {
    assert!(contains_text("user already exists", "already exists"));
    assert!(contains_text("abc", ""));
    assert!(!contains_text("ab", "abc"));
    assert!(starts_with_text("/_lock/a", "/_lock"));
    assert!(!starts_with_text("/_loc", "/_lock"));
}

#[test]
fn numbers_are_written_in_decimal() {
    assert_eq!(decimal_text(0), "0");
    assert_eq!(decimal_text(u64::MAX), u64::MAX.to_string());
    assert_eq!(decimal_int_text(-7), "-7");
    assert_eq!(decimal_int_text(i64::MIN), i64::MIN.to_string());
    assert_eq!(decimal_int_text(42), "42");
}

#[test]
fn texts_are_joined_in_order() {
    assert_eq!(join3("a", "-", "b"), "a-b");
    assert_eq!(join5("1", "2", "3", "4", "5"), "12345");
    assert_eq!(copy_bytes(&vec![1, 0, 255]), vec![1, 0, 255]);
}
