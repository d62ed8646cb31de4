use selma::text::{listed, starts_with, str_eq, trim_start};
use selma::validate::{protocol_boundary, split_whitespace};

#[test]
fn trim_start_drops_unicode_whitespace() {
    assert_eq!(trim_start(" \t\u{a0}\u{3000}x y "), "x y ");
    assert_eq!(trim_start("   "), "");
}

#[test]
fn split_whitespace_matches_std() {
    let s = " a\tbb \u{2003}c\n";
    let expected: Vec<String> = s.split_whitespace().map(|t| t.to_string()).collect();
    assert_eq!(split_whitespace(s), expected);
    assert!(split_whitespace("  ").is_empty());
}

#[test]
fn string_comparisons() {
    assert!(str_eq("héllo", "héllo"));
    assert!(!str_eq("a", "ab"));
    assert!(starts_with("<!--x", "<!--"));
    assert!(!starts_with("<!-", "<!--"));
    let list = vec!["a".to_string(), "b".to_string()];
    assert!(listed(&list, "b"));
    assert!(!listed(&list, "c"));
}

#[test]
fn protocol_boundary_positions() {
    assert_eq!(protocol_boundary("http://x"), 4);
    assert_eq!(protocol_boundary("#a"), 0);
    assert_eq!(protocol_boundary("abc"), 3);
    assert_eq!(protocol_boundary(""), 0);
}
