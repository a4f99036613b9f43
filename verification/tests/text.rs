use llmparty::text::{i64_text, join_texts, lowercase, trim_text, u64_text};

#[test]
fn trim_removes_unicode_whitespace_at_both_ends() {
    assert_eq!(trim_text("\u{3000} a b \n"), "a b");
    assert_eq!(trim_text(""), "");
    assert_eq!(trim_text(trim_text("  x ").as_str()), "x");
}

#[test]
fn numbers_print_in_decimal() {
    assert_eq!(u64_text(0), "0");
    assert_eq!(u64_text(12_000), "12000");
    assert_eq!(u64_text(u64::MAX), "18446744073709551615");
    assert_eq!(i64_text(-42), "-42");
    assert_eq!(i64_text(i64::MIN), "-9223372036854775808");
}

#[test]
fn lowercase_and_join() {
    assert_eq!(lowercase("TrUe"), "true");
    assert_eq!(join_texts(&vec!["a".to_string(), "b".to_string()], ", "), "a, b");
    assert_eq!(join_texts(&vec![], ", "), "");
}
