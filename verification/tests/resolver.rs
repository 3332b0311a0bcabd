//! Field resolver and deadline mapper behaviour.

use project_sync::common::State;
use project_sync::fields::{resolve_option_id, FieldError};
use project_sync::milestones::DueDate;
use project_sync::project_details::{Field, FieldOption, RoadmapProject};
use project_sync::deadline::{quarter_label, try_get_matching_roadmap_deadline};

fn field(options: Vec<(&str, &str)>) -> Field {
    Field {
        id: String::from("F1"),
        options: options
            .into_iter()
            .map(|(id, name)| FieldOption { id: String::from(id), name: String::from(name) })
            .collect(),
    }
}

fn roadmap_with_deadlines(options: Vec<(&str, &str)>) -> RoadmapProject {
    RoadmapProject {
        id: String::from("R"),
        number: 27,
        status: field(vec![("st-open", "Open"), ("st-closed", "Closed")]),
        team: field(vec![("team-1", "Tools")]),
        deadline: field(options),
    }
}

#[test]
fn prefix_match_is_case_insensitive() {
    let f = field(vec![("o1", "Needs Review (external)")]);
    assert_eq!(resolve_option_id(&f, "needs review"), Ok(String::from("o1")));
}

#[test]
fn prefix_match_requires_a_prefix() {
    let f = field(vec![("o1", "Needs Review (external)")]);
    assert_eq!(resolve_option_id(&f, "eeds review"), Err(FieldError::FieldNotFound));
}

#[test]
fn option_names_are_trimmed_before_matching() {
    let f = field(vec![("o1", "  milestone backlog  ")]);
    assert_eq!(resolve_option_id(&f, "Milestone"), Ok(String::from("o1")));
}

#[test]
fn first_matching_option_wins() {
    let f = field(vec![("o1", "closed issues"), ("o2", "closed prs")]);
    assert_eq!(resolve_option_id(&f, "closed"), Ok(String::from("o1")));
}

#[test]
fn empty_wanted_matches_first_option() {
    let f = field(vec![("o1", "anything")]);
    assert_eq!(resolve_option_id(&f, ""), Ok(String::from("o1")));
}

#[test]
fn no_options_means_not_found() {
    let f = field(vec![]);
    assert_eq!(resolve_option_id(&f, "x"), Err(FieldError::FieldNotFound));
}

#[test]
fn quarter_labels_for_each_quarter() {
    assert_eq!(quarter_label(&DueDate { year: 2023, month: 1 }), "Q1 2023");
    assert_eq!(quarter_label(&DueDate { year: 2023, month: 5 }), "Q2 2023");
    assert_eq!(quarter_label(&DueDate { year: 2023, month: 9 }), "Q3 2023");
    assert_eq!(quarter_label(&DueDate { year: 2023, month: 10 }), "Q4 2023");
}

#[test]
fn march_31_maps_to_q1_april_1_to_q2() {
    let roadmap = roadmap_with_deadlines(vec![("q1", "Q1 2023"), ("q2", "Q2 2023")]);
    let march_31 = DueDate { year: 2023, month: 3 };
    let april_1 = DueDate { year: 2023, month: 4 };
    assert_eq!(
        try_get_matching_roadmap_deadline(&roadmap, &march_31),
        Some(String::from("q1"))
    );
    assert_eq!(
        try_get_matching_roadmap_deadline(&roadmap, &april_1),
        Some(String::from("q2"))
    );
}

#[test]
fn december_and_january_fall_into_different_years() {
    let roadmap = roadmap_with_deadlines(vec![("q4-23", "Q4 2023"), ("q1-24", "Q1 2024")]);
    let dec_31 = DueDate { year: 2023, month: 12 };
    let jan_1 = DueDate { year: 2024, month: 1 };
    assert_eq!(
        try_get_matching_roadmap_deadline(&roadmap, &dec_31),
        Some(String::from("q4-23"))
    );
    assert_eq!(
        try_get_matching_roadmap_deadline(&roadmap, &jan_1),
        Some(String::from("q1-24"))
    );
}

#[test]
fn missing_quarter_column_is_a_soft_failure() {
    let roadmap = roadmap_with_deadlines(vec![("q1", "Q1 2023")]);
    let far_future = DueDate { year: 2030, month: 6 };
    assert_eq!(try_get_matching_roadmap_deadline(&roadmap, &far_future), None);
}

#[test]
fn case_folding_is_ascii_only() {
    // Only A-Z fold; accented letters must match exactly.
    let f = field(vec![("o1", "Überblick")]);
    assert_eq!(resolve_option_id(&f, "Über"), Ok(String::from("o1")));
    assert_eq!(resolve_option_id(&f, "über"), Err(FieldError::FieldNotFound));
}

#[test]
fn state_display_strings() {
    assert_eq!(State::OPEN.display_string(), "State:OPEN");
    assert_eq!(State::CLOSED.display_string(), "State:CLOSED");
}
