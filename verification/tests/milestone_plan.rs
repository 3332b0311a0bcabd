//! Scenario tests for the milestone reconciler's decision table.

use project_sync::common::State;
use project_sync::milestones::{DueDate, Milestone};
use project_sync::project_details::{Field, FieldOption, Projects, RoadmapProject, ToolsProject};
use project_sync::project_repo::{self, ProjectIssue, ProjectRepo};
use project_sync::sync_milestones::{
    expected_body, expected_title, match_slug, milestone_url, plan_milestone, MilestoneAction,
};

fn field(id: &str, options: Vec<(&str, &str)>) -> Field {
    Field {
        id: String::from(id),
        options: options
            .into_iter()
            .map(|(id, name)| FieldOption { id: String::from(id), name: String::from(name) })
            .collect(),
    }
}

fn projects(deadlines: Vec<(&str, &str)>) -> Projects {
    Projects {
        tools: ToolsProject {
            id: String::from("TOOLS"),
            number: 22,
            status: field("tools-status", vec![("ms-col", "Milestones")]),
        },
        roadmap: RoadmapProject {
            id: String::from("ROADMAP"),
            number: 27,
            status: field("rm-status", vec![("rm-open", "Open"), ("rm-closed", "Closed")]),
            team: field("rm-team", vec![("team-subxt", "Subxt")]),
            deadline: field("rm-deadline", deadlines),
        },
    }
}

fn empty_repo() -> ProjectRepo {
    ProjectRepo { id: String::from("REPO"), issues: vec![] }
}

#[test]
fn open_public_milestone_without_issue_is_created_everywhere() {
    // Milestone {title:"[public] v2", state:OPEN, due:2023-05-10} with no
    // matching tracking issue and deadline columns Q1/Q2 2023.
    let milestone = Milestone {
        number: 5,
        title: String::from("[public] v2"),
        state: State::OPEN,
        due_on: Some(DueDate { year: 2023, month: 5 }),
        description: String::from("the work"),
    };
    let boards = projects(vec![("q1-23", "Q1 2023"), ("q2-23", "Q2 2023")]);
    let repo = empty_repo();
    let acts = plan_milestone(
        "org", "subxt", &milestone, &repo, &boards, "milestone", "Subxt",
    )
    .expect("plan should succeed");
    assert_eq!(acts.len(), 1);
    match &acts[0] {
        MilestoneAction::CreateIssue { repo_id, title, body, tools, roadmap } => {
            assert_eq!(repo_id, "REPO");
            assert_eq!(title, "[subxt] v2");
            let url = milestone_url("org", "subxt", 5);
            let slug = match_slug(&url);
            assert_eq!(body, &expected_body(&slug, "the work", &url));
            assert_eq!(tools.project_id, "TOOLS");
            assert_eq!(tools.status_field_id, "tools-status");
            assert_eq!(tools.status_option_id, "ms-col");
            let roadmap = roadmap.as_ref().expect("public milestone goes on the roadmap");
            assert_eq!(roadmap.project_id, "ROADMAP");
            assert_eq!(roadmap.status_option_id, "rm-open");
            assert_eq!(roadmap.team_option_id, "team-subxt");
            // Due 2023-05-10 falls in the second quarter.
            assert_eq!(roadmap.deadline_option_id, Some(String::from("q2-23")));
        },
        other => panic!("expected CreateIssue, got {other:?}"),
    }
}

#[test]
fn open_private_milestone_is_created_on_tools_board_only() {
    let milestone = Milestone {
        number: 5,
        title: String::from("internal v2"),
        state: State::OPEN,
        due_on: None,
        description: String::new(),
    };
    let boards = projects(vec![]);
    let acts = plan_milestone(
        "org", "subxt", &milestone, &empty_repo(), &boards, "milestone", "Subxt",
    )
    .expect("plan should succeed");
    assert_eq!(acts.len(), 1);
    match &acts[0] {
        MilestoneAction::CreateIssue { roadmap, .. } => assert!(roadmap.is_none()),
        other => panic!("expected CreateIssue, got {other:?}"),
    }
}

#[test]
fn closed_milestone_without_issue_is_skipped() {
    let milestone = Milestone {
        number: 5,
        title: String::from("[public] v2"),
        state: State::CLOSED,
        due_on: None,
        description: String::new(),
    };
    let boards = projects(vec![]);
    let acts = plan_milestone(
        "org", "subxt", &milestone, &empty_repo(), &boards, "milestone", "Subxt",
    )
    .expect("plan should succeed");
    assert!(acts.is_empty());
}

fn tracked_issue_for(milestone: &Milestone, org: &str, repo: &str) -> ProjectIssue {
    let url = milestone_url(org, repo, milestone.number);
    let slug = match_slug(&url);
    ProjectIssue {
        id: String::from("ISSUE-1"),
        title: expected_title(repo, &milestone.title),
        state: milestone.state,
        description: expected_body(&slug, &milestone.description, &url),
        tools_project: None,
        roadmap_project: None,
    }
}

#[test]
fn closed_milestone_with_stale_quarter_is_removed_from_roadmap() {
    // The tracked milestone is now closed, its quarter has rolled off the
    // board, and the item still has a deadline set: the reconciler removes
    // the item from the roadmap rather than updating the deadline.
    let milestone = Milestone {
        number: 5,
        title: String::from("[public] v2"),
        state: State::CLOSED,
        due_on: Some(DueDate { year: 2023, month: 5 }),
        description: String::from("the work"),
    };
    // Only later quarters remain on the board.
    let boards = projects(vec![("q1-24", "Q1 2024")]);
    let mut issue = tracked_issue_for(&milestone, "org", "subxt");
    issue.roadmap_project = Some(project_repo::RoadmapProject {
        item_id: String::from("RM-ITEM"),
        status_id: Some(String::from("rm-closed")),
        deadline_id: Some(String::from("q2-23")),
        team_id: Some(String::from("team-subxt")),
    });
    let repo = ProjectRepo { id: String::from("REPO"), issues: vec![issue] };
    let acts = plan_milestone(
        "org", "subxt", &milestone, &repo, &boards, "milestone", "Subxt",
    )
    .expect("plan should succeed");
    assert_eq!(
        acts,
        vec![MilestoneAction::RemoveFromProject {
            project_id: String::from("ROADMAP"),
            item_id: String::from("RM-ITEM"),
        }]
    );
}

#[test]
fn update_is_sent_only_for_fields_that_differ() {
    let milestone = Milestone {
        number: 5,
        title: String::from("[public] v2"),
        state: State::OPEN,
        due_on: None,
        description: String::from("text"),
    };
    let boards = projects(vec![]);
    let mut issue = tracked_issue_for(&milestone, "org", "subxt");
    issue.title = String::from("stale title");
    issue.state = State::CLOSED;
    issue.tools_project = Some(project_repo::ToolsProject {
        item_id: String::from("T-ITEM"),
        status_id: Some(String::from("ms-col")),
    });
    issue.roadmap_project = None;
    let repo = ProjectRepo { id: String::from("REPO"), issues: vec![issue] };
    let acts = plan_milestone(
        "org", "subxt", &milestone, &repo, &boards, "milestone", "Subxt",
    )
    .expect("plan should succeed");
    // One update (title and state only), and one roadmap addition for the
    // public milestone; the tools status already agrees.
    assert_eq!(acts.len(), 2);
    match &acts[0] {
        MilestoneAction::UpdateIssue { issue_id, title, body, state } => {
            assert_eq!(issue_id, "ISSUE-1");
            assert_eq!(title.as_deref(), Some("[subxt] v2"));
            assert!(body.is_none());
            assert_eq!(*state, Some(State::OPEN));
        },
        other => panic!("expected UpdateIssue, got {other:?}"),
    }
    match &acts[1] {
        MilestoneAction::AddRoadmapItem { issue_id, plan } => {
            assert_eq!(issue_id, "ISSUE-1");
            assert_eq!(plan.status_option_id, "rm-open");
            assert_eq!(plan.deadline_option_id, None);
        },
        other => panic!("expected AddRoadmapItem, got {other:?}"),
    }
}

#[test]
fn second_run_after_applying_the_plan_is_quiet() {
    // Idempotence on concrete values: plan, apply the creation by hand as
    // the upstream system would, and plan again.
    let milestone = Milestone {
        number: 5,
        title: String::from("[public] v2"),
        state: State::OPEN,
        due_on: Some(DueDate { year: 2023, month: 5 }),
        description: String::from("the work"),
    };
    let boards = projects(vec![("q2-23", "Q2 2023")]);
    let acts = plan_milestone(
        "org", "subxt", &milestone, &empty_repo(), &boards, "milestone", "Subxt",
    )
    .expect("plan should succeed");
    assert_eq!(acts.len(), 1);
    let created = match acts.into_iter().next().unwrap() {
        MilestoneAction::CreateIssue { title, body, tools, roadmap, .. } => ProjectIssue {
            id: String::from("FRESH-ISSUE"),
            title,
            state: State::OPEN,
            description: body,
            tools_project: Some(project_repo::ToolsProject {
                item_id: String::from("FRESH-T"),
                status_id: Some(tools.status_option_id),
            }),
            roadmap_project: roadmap.map(|rp| project_repo::RoadmapProject {
                item_id: String::from("FRESH-R"),
                status_id: Some(rp.status_option_id),
                deadline_id: rp.deadline_option_id,
                team_id: Some(rp.team_option_id),
            }),
        },
        other => panic!("expected CreateIssue, got {other:?}"),
    };
    let repo = ProjectRepo { id: String::from("REPO"), issues: vec![created] };
    let second = plan_milestone(
        "org", "subxt", &milestone, &repo, &boards, "milestone", "Subxt",
    )
    .expect("second plan should succeed");
    assert!(second.is_empty(), "second run planned {second:?}");
}

#[test]
fn second_run_after_field_updates_is_quiet() {
    // Idempotence along the matched path: an out-of-sync tracked issue is
    // planned for updates; applying them by hand settles the state.
    let milestone = Milestone {
        number: 9,
        title: String::from("[public] v3"),
        state: State::OPEN,
        due_on: Some(DueDate { year: 2023, month: 11 }),
        description: String::from("work"),
    };
    let boards = projects(vec![("q4-23", "Q4 2023")]);
    let mut issue = tracked_issue_for(&milestone, "org", "subxt");
    issue.title = String::from("old");
    issue.tools_project = Some(project_repo::ToolsProject {
        item_id: String::from("T-ITEM"),
        status_id: None,
    });
    issue.roadmap_project = Some(project_repo::RoadmapProject {
        item_id: String::from("R-ITEM"),
        status_id: Some(String::from("rm-closed")),
        deadline_id: None,
        team_id: Some(String::from("team-subxt")),
    });
    let repo = ProjectRepo { id: String::from("REPO"), issues: vec![issue] };
    let acts = plan_milestone(
        "org", "subxt", &milestone, &repo, &boards, "milestone", "Subxt",
    )
    .expect("plan should succeed");
    assert!(!acts.is_empty());

    // Apply each planned mutation to the single tracked issue by hand.
    let mut issue = repo.issues.into_iter().next().unwrap();
    for act in acts {
        match act {
            MilestoneAction::UpdateIssue { title, body, state, .. } => {
                if let Some(t) = title {
                    issue.title = t;
                }
                if let Some(b) = body {
                    issue.description = b;
                }
                if let Some(s) = state {
                    issue.state = s;
                }
            },
            MilestoneAction::SetField { project_id, field_id, option_id, .. } => {
                if project_id == "TOOLS" {
                    issue.tools_project.as_mut().unwrap().status_id = Some(option_id);
                } else if field_id == "rm-status" {
                    issue.roadmap_project.as_mut().unwrap().status_id = Some(option_id);
                } else if field_id == "rm-team" {
                    issue.roadmap_project.as_mut().unwrap().team_id = Some(option_id);
                } else {
                    issue.roadmap_project.as_mut().unwrap().deadline_id = Some(option_id);
                }
            },
            MilestoneAction::ClearField { field_id, .. } => {
                assert_eq!(field_id, "rm-deadline");
                issue.roadmap_project.as_mut().unwrap().deadline_id = None;
            },
            MilestoneAction::RemoveFromProject { project_id, .. } => {
                if project_id == "TOOLS" {
                    issue.tools_project = None;
                } else {
                    issue.roadmap_project = None;
                }
            },
            other => panic!("unexpected action for a matched issue: {other:?}"),
        }
    }
    let repo = ProjectRepo { id: String::from("REPO"), issues: vec![issue] };
    let second = plan_milestone(
        "org", "subxt", &milestone, &repo, &boards, "milestone", "Subxt",
    )
    .expect("second plan should succeed");
    assert!(second.is_empty(), "second run planned {second:?}");
}

#[test]
fn missing_status_column_is_a_configuration_error() {
    let milestone = Milestone {
        number: 5,
        title: String::from("v2"),
        state: State::OPEN,
        due_on: None,
        description: String::new(),
    };
    let mut boards = projects(vec![]);
    boards.tools.status = field("tools-status", vec![("other", "Something else")]);
    let r = plan_milestone(
        "org", "subxt", &milestone, &empty_repo(), &boards, "milestone", "Subxt",
    );
    assert_eq!(r, Err(project_sync::fields::FieldError::FieldNotFound));
}
