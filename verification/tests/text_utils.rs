//! The text primitives underlying matching and formatting.

use project_sync::text::{
    contains_str, prefix_matches_trimmed_ci, starts_with_ci, str_eq, str_trim_end_newlines,
    usize_to_string,
};

#[test]
fn decimal_formatting_is_exact() {
    assert_eq!(usize_to_string(0), "0");
    assert_eq!(usize_to_string(7), "7");
    assert_eq!(usize_to_string(10), "10");
    assert_eq!(usize_to_string(2023), "2023");
    assert_eq!(usize_to_string(100500), "100500");
}

#[test]
fn string_equality_is_by_characters() {
    assert!(str_eq("abc", "abc"));
    assert!(!str_eq("abc", "abd"));
    assert!(!str_eq("abc", "ab"));
    assert!(str_eq("", ""));
}

#[test]
fn substring_search_finds_inner_occurrences() {
    assert!(contains_str("the quick fox", "quick"));
    assert!(contains_str("abc", "abc"));
    assert!(contains_str("abc", ""));
    assert!(!contains_str("abc", "abcd"));
    assert!(!contains_str("ababab", "abba"));
}

#[test]
fn case_insensitive_prefix_tests() {
    assert!(starts_with_ci("Needs Review (external)", "needs review"));
    assert!(!starts_with_ci("eeds review", "needs"));
    assert!(prefix_matches_trimmed_ci("  Needs Review  ", "NEEDS"));
    assert!(!prefix_matches_trimmed_ci("review", "needs"));
}

#[test]
fn trailing_newlines_are_trimmed() {
    assert_eq!(str_trim_end_newlines("body\n\n\n"), "body");
    assert_eq!(str_trim_end_newlines("body"), "body");
    assert_eq!(str_trim_end_newlines("\n"), "");
    assert_eq!(str_trim_end_newlines("a\nb\n"), "a\nb");
}
