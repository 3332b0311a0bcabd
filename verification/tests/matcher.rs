//! The matcher and the derived tracking-issue strings.

use project_sync::common::State;
use project_sync::project_repo::ProjectIssue;
use project_sync::sync_milestones::{
    expected_body, expected_title, find_matching_issue, is_public_title, match_slug,
    milestone_url, stripped_title,
};

fn issue_with_description(id: &str, description: &str) -> ProjectIssue {
    ProjectIssue {
        id: String::from(id),
        title: String::from("t"),
        state: State::OPEN,
        description: String::from(description),
        tools_project: None,
        roadmap_project: None,
    }
}

#[test]
fn url_and_slug_are_exact() {
    let url = milestone_url("paritytech", "subxt", 7);
    assert_eq!(url, "https://github.com/paritytech/subxt/milestone/7");
    assert_eq!(
        match_slug(&url),
        "AUTO GENERATED FROM https://github.com/paritytech/subxt/milestone/7-->"
    );
}

#[test]
fn milestone_numbers_with_shared_prefix_do_not_cross_match() {
    let url1 = milestone_url("org", "repo", 1);
    let url10 = milestone_url("org", "repo", 10);
    let slug1 = match_slug(&url1);
    let slug10 = match_slug(&url10);
    let pool = vec![
        issue_with_description("i10", &format!("tracks <!-- {slug10} --> here")),
        issue_with_description("i1", &format!("tracks <!-- {slug1} --> here")),
    ];
    // The issue for milestone 10 must not satisfy the milestone 1 lookup,
    // even though its URL extends milestone 1's URL by one digit.
    assert_eq!(find_matching_issue(&pool, &slug1), Some(1));
    assert_eq!(find_matching_issue(&pool, &slug10), Some(0));
}

#[test]
fn no_issue_contains_the_marker() {
    let pool = vec![issue_with_description("a", "unrelated")];
    assert_eq!(find_matching_issue(&pool, "AUTO GENERATED FROM x-->"), None);
}

#[test]
fn first_matching_issue_is_returned() {
    let pool = vec![
        issue_with_description("a", "nothing"),
        issue_with_description("b", "has MARK here"),
        issue_with_description("c", "also MARK here"),
    ];
    assert_eq!(find_matching_issue(&pool, "MARK"), Some(1));
}

#[test]
fn public_tag_is_detected_case_insensitively() {
    assert!(is_public_title("[public] v2"));
    assert!(is_public_title("[Public] v2"));
    assert!(is_public_title("[PUBLIC]v2"));
    assert!(!is_public_title("v2 [public]"));
    assert!(!is_public_title("public v2"));
}

#[test]
fn stripped_title_removes_tag_and_spaces() {
    assert_eq!(stripped_title("[public] v2"), "v2");
    assert_eq!(stripped_title("[Public]   spaced"), "spaced");
    assert_eq!(stripped_title("plain"), "plain");
}

#[test]
fn expected_title_is_exact() {
    assert_eq!(expected_title("subxt", "[public] v2"), "[subxt] v2");
    assert_eq!(expected_title("subxt", "v3"), "[subxt] v3");
}

#[test]
fn expected_body_embeds_marker_body_and_permalink() {
    let url = milestone_url("o", "r", 2);
    let slug = match_slug(&url);
    let body = expected_body(&slug, "milestone text\n\n", &url);
    assert_eq!(
        body,
        "<!-- DO NOT EDIT. AUTO GENERATED FROM https://github.com/o/r/milestone/2-->\n\
         milestone text\n\
         \n\
         ---\n\
         \n\
         Here is the corresponding GitHub milestone:\n\
         \n\
         https://github.com/o/r/milestone/2\n"
    );
}
