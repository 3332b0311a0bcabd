//! The set reconciler's diff, the paging decision, and the draft split.

use project_sync::assigned_issues::{assigned_issue_ids, AssignedIssue};
use project_sync::fields::FieldError;
use project_sync::project_details::{Field, FieldOption};
use project_sync::project_items::{next_page_cursor, ProjectItem};
use project_sync::team_prs::{dedupe_prs, draft_pr_ids, non_draft_pr_ids, Issue};
use project_sync::utils::plan_issue_sync;

fn status_field() -> Field {
    Field {
        id: String::from("status-field"),
        options: vec![
            FieldOption { id: String::from("col-a"), name: String::from("In Progress") },
            FieldOption { id: String::from("col-b"), name: String::from("Needs Review") },
        ],
    }
}

fn item(item_id: &str, content_id: &str, status: Option<&str>) -> ProjectItem {
    ProjectItem {
        item_id: String::from(item_id),
        content_id: String::from(content_id),
        status_field_value_id: status.map(String::from),
    }
}

fn ids(xs: Vec<&str>) -> Vec<String> {
    xs.into_iter().map(String::from).collect()
}

#[test]
fn diff_adds_missing_and_removes_unwanted() {
    let wanted = ids(vec!["c1", "c2", "c3"]);
    let items = vec![
        item("i1", "c1", Some("col-a")),
        item("i2", "c9", Some("col-a")),
        // In another column: not part of this diff.
        item("i3", "c2", Some("col-b")),
        // No status at all: not part of this diff.
        item("i4", "c3", None),
    ];
    let plan = plan_issue_sync(&wanted, &items, &status_field(), "in progress").unwrap();
    assert_eq!(plan.status_option_id, "col-a");
    assert_eq!(plan.to_add, ids(vec!["c2", "c3"]));
    assert_eq!(plan.to_remove, ids(vec!["i2"]));
}

#[test]
fn settled_column_plans_nothing() {
    let wanted = ids(vec!["c1", "c2"]);
    let items = vec![item("i1", "c1", Some("col-a")), item("i2", "c2", Some("col-a"))];
    let plan = plan_issue_sync(&wanted, &items, &status_field(), "in progress").unwrap();
    assert!(plan.to_add.is_empty());
    assert!(plan.to_remove.is_empty());
}

#[test]
fn applying_the_diff_settles_the_column() {
    let wanted = ids(vec!["c1", "c2"]);
    let items = vec![item("i1", "c1", Some("col-a")), item("i2", "c9", Some("col-a"))];
    let plan = plan_issue_sync(&wanted, &items, &status_field(), "in progress").unwrap();
    // Apply: add planned content ids as fresh rows, drop removed rows.
    let mut after: Vec<ProjectItem> = items
        .into_iter()
        .filter(|it| !plan.to_remove.contains(&it.item_id))
        .collect();
    for (n, content) in plan.to_add.iter().enumerate() {
        after.push(item(&format!("fresh-{n}"), content, Some("col-a")));
    }
    let second = plan_issue_sync(&wanted, &after, &status_field(), "in progress").unwrap();
    assert!(second.to_add.is_empty());
    assert!(second.to_remove.is_empty());
}

#[test]
fn duplicate_wanted_ids_do_not_remove_anything() {
    let wanted = ids(vec!["c1", "c1"]);
    let items = vec![item("i1", "c1", Some("col-a"))];
    let plan = plan_issue_sync(&wanted, &items, &status_field(), "in progress").unwrap();
    assert!(plan.to_add.is_empty());
    assert!(plan.to_remove.is_empty());
}

#[test]
fn duplicate_absent_wanted_ids_are_added_once() {
    // Set semantics: presence, not count. A repeated id that is missing
    // from the column yields a single addition, not one per occurrence.
    let wanted = ids(vec!["x", "x"]);
    let items = vec![];
    let plan = plan_issue_sync(&wanted, &items, &status_field(), "in progress").unwrap();
    assert_eq!(plan.to_add, ids(vec!["x"]));
    assert!(plan.to_remove.is_empty());
}

#[test]
fn repeats_among_mixed_wanted_ids_collapse_to_first_occurrences() {
    let wanted = ids(vec!["a", "b", "a", "c", "b"]);
    let items = vec![item("i1", "b", Some("col-a"))];
    let plan = plan_issue_sync(&wanted, &items, &status_field(), "in progress").unwrap();
    assert_eq!(plan.to_add, ids(vec!["a", "c"]));
    assert!(plan.to_remove.is_empty());
}

#[test]
fn unknown_status_name_fails() {
    let wanted = ids(vec![]);
    let items = vec![];
    let r = plan_issue_sync(&wanted, &items, &status_field(), "does not exist");
    assert!(matches!(r, Err(FieldError::FieldNotFound)));
}

#[test]
fn paging_continues_only_with_more_pages_and_a_cursor() {
    assert_eq!(next_page_cursor(true, Some(String::from("abc"))), Some(String::from("abc")));
    assert_eq!(next_page_cursor(false, Some(String::from("abc"))), None);
    // A "has more" answer without a cursor terminates rather than looping.
    assert_eq!(next_page_cursor(true, None), None);
    assert_eq!(next_page_cursor(false, None), None);
}

#[test]
fn duplicate_search_hits_are_dropped_keeping_the_first() {
    let prs = vec![
        Issue { id: String::from("a"), draft: true },
        Issue { id: String::from("b"), draft: false },
        Issue { id: String::from("a"), draft: true },
        // Same id out of draft: a different key, so it stays.
        Issue { id: String::from("a"), draft: false },
    ];
    let unique = dedupe_prs(&prs);
    let keys: Vec<(String, bool)> = unique.iter().map(|i| (i.id.clone(), i.draft)).collect();
    assert_eq!(
        keys,
        vec![
            (String::from("a"), true),
            (String::from("b"), false),
            (String::from("a"), false),
        ]
    );
}

#[test]
fn assigned_issues_in_the_tracking_repo_are_excluded() {
    let hits = vec![
        AssignedIssue { id: String::from("i1"), repo_name: String::from("subxt") },
        AssignedIssue { id: String::from("i2"), repo_name: String::from("team-milestones") },
        AssignedIssue { id: String::from("i3"), repo_name: String::from("desub") },
    ];
    assert_eq!(assigned_issue_ids(&hits, "team-milestones"), ids(vec!["i1", "i3"]));
}

#[test]
fn draft_and_review_splits_preserve_order() {
    let prs = vec![
        Issue { id: String::from("a"), draft: true },
        Issue { id: String::from("b"), draft: false },
        Issue { id: String::from("c"), draft: true },
    ];
    assert_eq!(draft_pr_ids(&prs), ids(vec!["a", "c"]));
    assert_eq!(non_draft_pr_ids(&prs), ids(vec!["b"]));
}
