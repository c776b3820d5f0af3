//! Number formatting and string comparison.

use krust::text::{push_decimal, push_hex, push_text, same_text};

#[test]
fn decimals_have_no_leading_zeros() {
    let mut out = Vec::new();
    push_decimal(&mut out, 0);
    out.push(b' ');
    push_decimal(&mut out, 10);
    out.push(b' ');
    push_decimal(&mut out, usize::MAX);
    assert_eq!(out, format!("0 10 {}", usize::MAX).as_bytes());
}

#[test]
fn hexadecimals_are_padded() {
    let mut out = String::new();
    push_hex(&mut out, 0xbeef, 0);
    push_text(&mut out, "-");
    push_hex(&mut out, 0xbeef, 6);
    push_text(&mut out, "-");
    push_hex(&mut out, 0, 2);
    assert_eq!(out, "beef-00beef-00");
}

#[test]
fn text_is_compared_by_characters() {
    assert!(same_text("", ""));
    assert!(same_text("gr\u{fc}n", "gr\u{fc}n"));
    assert!(!same_text("a", "ab"));
    assert!(!same_text("ab", "aB"));
}
