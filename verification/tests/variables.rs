//! The query-variable builder's JSON object framing and name escaping.

use project_sync::closed_things::ClosedThings;
use project_sync::variables::{QueryError, Variables};

#[test]
fn empty_variables_build_to_none() {
    let v = Variables::new();
    assert_eq!(v.build(), None);
}

#[test]
fn one_variable_is_a_singleton_object() {
    let mut v = Variables::new();
    v.push("org", "\"paritytech\"");
    assert_eq!(v.build(), Some(String::from("{\"org\":\"paritytech\"}")));
}

#[test]
fn variables_are_comma_separated_in_push_order() {
    let mut v = Variables::new();
    v.push("org", "\"o\"");
    v.push("project_number", "22");
    v.push("cursor", "null");
    assert_eq!(
        v.build(),
        Some(String::from("{\"org\":\"o\",\"project_number\":22,\"cursor\":null}"))
    );
}

#[test]
fn names_are_escaped() {
    let mut v = Variables::new();
    v.push("quo\"te\\back\nline", "1");
    assert_eq!(v.build(), Some(String::from("{\"quo\\\"te\\\\back\\nline\":1}")));
}

#[test]
fn control_characters_use_unicode_escapes() {
    let mut v = Variables::new();
    v.push("a\u{1}b\u{1f}", "2");
    assert_eq!(v.build(), Some(String::from("{\"a\\u0001b\\u001f\":2}")));
}

#[test]
fn closed_things_carries_both_id_lists() {
    let ct = ClosedThings {
        closed_issues: vec![String::from("i1")],
        merged_prs: vec![String::from("p1"), String::from("p2")],
    };
    assert_eq!(ct.closed_issues.len(), 1);
    assert_eq!(ct.merged_prs.len(), 2);
}

#[test]
fn query_error_keeps_path_and_message() {
    let e = QueryError {
        path: Some(vec![String::from("repository"), String::from("issues")]),
        message: String::from("bad field"),
    };
    assert_eq!(e.message, "bad field");
    assert_eq!(e.path.as_ref().map(|p| p.len()), Some(2));
}
