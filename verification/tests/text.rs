use paycal::text::{split_commas_str, text_equals, trim_str};

#[test]
fn trim_removes_unicode_white_space_at_both_ends() {
    assert_eq!(trim_str("  20 \t"), "20");
    assert_eq!(trim_str("\u{3000}a b\u{a0}"), "a b");
    assert_eq!(trim_str("   "), "");
    assert_eq!(trim_str(""), "");
}

#[test]
fn split_keeps_empty_pieces() {
    assert_eq!(split_commas_str("20,,30"), vec!["20", "", "30"]);
    assert_eq!(split_commas_str(""), vec![""]);
    assert_eq!(split_commas_str("a,"), vec!["a", ""]);
    assert_eq!(split_commas_str("22.75"), vec!["22.75"]);
}

#[test]
fn text_equality() {
    assert!(text_equals("csv", "csv"));
    assert!(!text_equals("csv", "cs"));
    assert!(!text_equals("csv", "CSV"));
}
