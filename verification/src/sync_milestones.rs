//! The milestone reconciler: for each milestone, derive the tracking issue
//! it should have, find that issue by its marker, and plan the
//! create/update/remove operations that bring the issue and its presence on
//! the two boards into line.

use vstd::prelude::*;
use crate::common::State;
use crate::deadline::{quarter_label_view, try_get_matching_roadmap_deadline};
use crate::fields::{resolve_option_id, resolved_id, FieldError};
use crate::milestones::{DueDate, Milestone, MilestoneV};
use crate::project_details::{
    Projects, ProjectsV, RoadmapProject, RoadmapProjectV, ToolsProject, ToolsProjectV,
};
use crate::project_repo::{
    ProjectIssue, ProjectIssueV, ProjectRepo, ProjectRepoV, RoadmapLinkV, ToolsLinkV,
};
use crate::text::{
    contains_seq, contains_str, digits_of, lower, matches_at, starts_with_ci,
    str_suffix_trim_start_spaces, str_trim_end_newlines, trim_end_nl, trim_start_spaces,
    usize_to_string,
};

verus! {

/// The canonical URL of a milestone.
pub open spec fn milestone_url_view(org: Seq<char>, repo: Seq<char>, number: nat) -> Seq<char> {
    "https://github.com/"@ + org + "/"@ + repo + "/milestone/"@ + digits_of(number)
}

/// The marker embedded in a tracking issue's body. The trailing `-->` is
/// part of the marker so that URLs differing only in a numeric suffix
/// cannot be confused by prefix matching.
pub open spec fn match_slug_view(url: Seq<char>) -> Seq<char> {
    "AUTO GENERATED FROM "@ + url + "-->"@
}

/// A milestone belongs on the public roadmap when its title starts with
/// `"[public]"`, case-insensitively.
pub open spec fn is_public_view(title: Seq<char>) -> bool {
    lower("[public]"@).is_prefix_of(lower(title))
}

/// The title with a leading `"[public]"` tag and the spaces after it
/// removed; a title without the tag is unchanged.
pub open spec fn stripped_title_view(title: Seq<char>) -> Seq<char> {
    if is_public_view(title) {
        trim_start_spaces(title.subrange(8, title.len() as int))
    } else {
        title
    }
}

/// The title the tracking issue should carry: `"[<repo>] <title>"`.
pub open spec fn expected_title_view(repo: Seq<char>, title: Seq<char>) -> Seq<char> {
    "["@ + repo + "] "@ + stripped_title_view(title)
}

/// The body the tracking issue should carry: the marker, the milestone
/// description, and a permalink to the milestone.
pub open spec fn expected_body_view(slug: Seq<char>, description: Seq<char>, url: Seq<char>) -> Seq<
    char,
> {
    "<!-- DO NOT EDIT. "@ + slug + "\n"@ + trim_end_nl(description)
        + "\n\n---\n\nHere is the corresponding GitHub milestone:\n\n"@ + url + "\n"@
}

/// Builds the milestone URL, as `milestone_url_view` describes.
pub fn milestone_url(org: &str, repo: &str, number: usize) -> (r: String)
    ensures
        r@ =~= milestone_url_view(org@, repo@, number as nat),
{
    let mut s = String::from_str("https://github.com/");
    s.append(org);
    s.append("/");
    s.append(repo);
    s.append("/milestone/");
    let num = usize_to_string(number);
    s.append(num.as_str());
    s
}

/// Builds the marker for a milestone URL, as `match_slug_view` describes.
pub fn match_slug(url: &str) -> (r: String)
    ensures
        r@ =~= match_slug_view(url@),
{
    let mut s = String::from_str("AUTO GENERATED FROM ");
    s.append(url);
    s.append("-->");
    s
}

/// Whether the title carries the `"[public]"` tag.
pub fn is_public_title(title: &str) -> (r: bool)
    ensures
        r == is_public_view(title@),
{
    starts_with_ci(title, "[public]")
}

/// The title with the `"[public]"` tag stripped, as `stripped_title_view`
/// describes.
pub fn stripped_title(title: &str) -> (r: String)
    ensures
        r@ =~= stripped_title_view(title@),
{
    if is_public_title(title) {
        proof {
            reveal_strlit("[public]");
            assert(lower("[public]"@).len() == 8);
            assert(lower(title@).len() >= 8);
        }
        str_suffix_trim_start_spaces(title, 8)
    } else {
        title.to_owned()
    }
}

/// Builds the expected tracking-issue title, as `expected_title_view`
/// describes.
pub fn expected_title(repo: &str, title: &str) -> (r: String)
    ensures
        r@ =~= expected_title_view(repo@, title@),
{
    let mut s = String::from_str("[");
    s.append(repo);
    s.append("] ");
    let stripped = stripped_title(title);
    s.append(stripped.as_str());
    s
}

/// Builds the expected tracking-issue body, as `expected_body_view`
/// describes.
pub fn expected_body(slug: &str, description: &str, url: &str) -> (r: String)
    ensures
        r@ =~= expected_body_view(slug@, description@, url@),
{
    let mut s = String::from_str("<!-- DO NOT EDIT. ");
    s.append(slug);
    s.append("\n");
    let trimmed = str_trim_end_newlines(description);
    s.append(trimmed.as_str());
    s.append("\n\n---\n\nHere is the corresponding GitHub milestone:\n\n");
    s.append(url);
    s.append("\n");
    s
}

/// An issue is matched to a milestone when its description contains the
/// milestone's marker.
pub open spec fn issue_matches(issue: ProjectIssueV, slug: Seq<char>) -> bool {
    contains_seq(issue.description, slug)
}

/// The position of the first issue containing the marker, if any.
pub open spec fn first_matching_issue(issues: Seq<ProjectIssueV>, slug: Seq<char>) -> Option<int>
    decreases issues.len(),
{
    if issues.len() == 0 {
        None
    } else if issue_matches(issues[0], slug) {
        Some(0)
    } else {
        match first_matching_issue(issues.drop_first(), slug) {
            None => None,
            Some(i) => Some(i + 1),
        }
    }
}

/// `first_matching_issue` returns the least matching position, and `None`
/// exactly when no issue matches.
pub proof fn lemma_first_matching_issue(issues: Seq<ProjectIssueV>, slug: Seq<char>)
    ensures
        match first_matching_issue(issues, slug) {
            Some(i) => 0 <= i < issues.len() && issue_matches(issues[i], slug) && forall|j: int|
                0 <= j < i ==> !issue_matches(issues[j], slug),
            None => forall|j: int| 0 <= j < issues.len() ==> !issue_matches(issues[j], slug),
        },
    decreases issues.len(),
{
    if issues.len() == 0 {
    } else if issue_matches(issues[0], slug) {
    } else {
        let rest = issues.drop_first();
        lemma_first_matching_issue(rest, slug);
        assert forall|j: int| 0 <= j < rest.len() implies #[trigger] rest[j] == issues[j + 1] by {}
        match first_matching_issue(rest, slug) {
            None => {
                assert forall|j: int| 0 <= j < issues.len() implies !issue_matches(
                    issues[j],
                    slug,
                ) by {
                    if j > 0 {
                        assert(issues[j] == rest[j - 1]);
                    }
                }
            },
            Some(i) => {
                assert(issues[i + 1] == rest[i]);
                assert forall|j: int| 0 <= j < i + 1 implies !issue_matches(issues[j], slug) by {
                    if j > 0 {
                        assert(issues[j] == rest[j - 1]);
                    }
                }
            },
        }
    }
}

/// The first issue whose description contains the marker, if any: the
/// milestone's tracking issue.
pub fn find_matching_issue(issues: &Vec<ProjectIssue>, slug: &str) -> (r: Option<usize>)
    ensures
        match r {
            Some(k) => first_matching_issue(issues.deep_view(), slug@) == Some(k as int),
            None => first_matching_issue(issues.deep_view(), slug@) is None,
        },
{
    proof {
        lemma_first_matching_issue(issues.deep_view(), slug@);
    }
    let n = issues.len();
    let mut k: usize = 0;
    while k < n
        invariant
            k <= n,
            n == issues.deep_view().len(),
            forall|j: int| 0 <= j < k ==> !issue_matches(issues.deep_view()[j], slug@),
            match first_matching_issue(issues.deep_view(), slug@) {
                Some(i) => 0 <= i < n && issue_matches(issues.deep_view()[i], slug@) && forall|
                    j: int,
                | 0 <= j < i ==> !issue_matches(issues.deep_view()[j], slug@),
                None => forall|j: int|
                    0 <= j < n ==> !issue_matches(issues.deep_view()[j], slug@),
            },
        decreases n - k,
    {
        if contains_str(issues[k].description.as_str(), slug) {
            proof {
                assert(issue_matches(issues.deep_view()[k as int], slug@));
                let fm = first_matching_issue(issues.deep_view(), slug@);
                assert(fm is Some);
                let i = fm.unwrap();
                assert(!(i < k) && !(k < i));
            }
            return Some(k);
        }
        k = k + 1;
    }
    None
}

/// The name the roadmap status column is looked up by: the milestone's
/// state, as lower-case text.
pub open spec fn state_name(state: State) -> Seq<char> {
    match state {
        State::OPEN => "open"@,
        State::CLOSED => "closed"@,
    }
}

/// The status option for milestone-tracking issues on the team's own
/// board.
pub fn get_tools_project_status_id(details: &ToolsProject, milestone_status_name: &str) -> (r:
    Result<String, FieldError>)
    ensures
        r is Ok <==> resolved_id(details@.status, milestone_status_name@) is Some,
        r matches Ok(id) ==> resolved_id(details@.status, milestone_status_name@) == Some(id@),
        r matches Err(e) ==> e == FieldError::FieldNotFound,
{
    resolve_option_id(&details.status, milestone_status_name)
}

/// The roadmap status option for a milestone state (an option named like
/// `"open"` or `"closed"`).
pub fn get_roadmap_project_state_id(details: &RoadmapProject, state: State) -> (r: Result<
    String,
    FieldError,
>)
    ensures
        r is Ok <==> resolved_id(details@.status, state_name(state)) is Some,
        r matches Ok(id) ==> resolved_id(details@.status, state_name(state)) == Some(id@),
        r matches Err(e) ==> e == FieldError::FieldNotFound,
{
    let name: &str = match state {
        State::CLOSED => "closed",
        State::OPEN => "open",
    };
    resolve_option_id(&details.status, name)
}

/// The roadmap team option for the configured team name.
pub fn get_roadmap_project_team_id(details: &RoadmapProject, team: &str) -> (r: Result<
    String,
    FieldError,
>)
    ensures
        r is Ok <==> resolved_id(details@.team, team@) is Some,
        r matches Ok(id) ==> resolved_id(details@.team, team@) == Some(id@),
        r matches Err(e) ==> e == FieldError::FieldNotFound,
{
    resolve_option_id(&details.team, team)
}

/// Ghost model of the fields set when an issue is placed on the tools
/// board.
pub ghost struct ToolsPlanV {
    pub project_id: Seq<char>,
    pub status_field_id: Seq<char>,
    pub status_option_id: Seq<char>,
}

/// Ghost model of the fields set when an issue is placed on the roadmap
/// board. A `None` deadline means the deadline field is cleared.
pub ghost struct RoadmapPlanV {
    pub project_id: Seq<char>,
    pub status_field_id: Seq<char>,
    pub status_option_id: Seq<char>,
    pub team_field_id: Seq<char>,
    pub team_option_id: Seq<char>,
    pub deadline_field_id: Seq<char>,
    pub deadline_option_id: Option<Seq<char>>,
}

/// Ghost model of one mutation the reconciler plans.
pub ghost enum ActionV {
    /// Update the tracking issue; each field is sent only when it differs.
    UpdateIssue {
        issue_id: Seq<char>,
        title: Option<Seq<char>>,
        body: Option<Seq<char>>,
        state: Option<State>,
    },
    /// Delete an item from a board.
    RemoveFromProject { project_id: Seq<char>, item_id: Seq<char> },
    /// Set a single-select field of an item.
    SetField {
        project_id: Seq<char>,
        item_id: Seq<char>,
        field_id: Seq<char>,
        option_id: Seq<char>,
    },
    /// Clear a single-select field of an item.
    ClearField { project_id: Seq<char>, item_id: Seq<char>, field_id: Seq<char> },
    /// Create the tracking issue, place it on the tools board, and, for a
    /// public milestone, on the roadmap board.
    CreateIssue {
        repo_id: Seq<char>,
        title: Seq<char>,
        body: Seq<char>,
        tools: ToolsPlanV,
        roadmap: Option<RoadmapPlanV>,
    },
    /// Place an existing issue on the tools board.
    AddToolsItem { issue_id: Seq<char>, plan: ToolsPlanV },
    /// Place an existing issue on the roadmap board.
    AddRoadmapItem { issue_id: Seq<char>, plan: RoadmapPlanV },
}

/// The fields set when an issue is placed on the tools board.
#[derive(Debug, PartialEq)]
pub struct ToolsItemPlan {
    pub project_id: String,
    pub status_field_id: String,
    pub status_option_id: String,
}

impl View for ToolsItemPlan {
    type V = ToolsPlanV;

    open spec fn view(&self) -> ToolsPlanV {
        ToolsPlanV {
            project_id: self.project_id@,
            status_field_id: self.status_field_id@,
            status_option_id: self.status_option_id@,
        }
    }
}

/// The fields set when an issue is placed on the roadmap board.
#[derive(Debug, PartialEq)]
pub struct RoadmapItemPlan {
    pub project_id: String,
    pub status_field_id: String,
    pub status_option_id: String,
    pub team_field_id: String,
    pub team_option_id: String,
    pub deadline_field_id: String,
    pub deadline_option_id: Option<String>,
}

impl View for RoadmapItemPlan {
    type V = RoadmapPlanV;

    open spec fn view(&self) -> RoadmapPlanV {
        RoadmapPlanV {
            project_id: self.project_id@,
            status_field_id: self.status_field_id@,
            status_option_id: self.status_option_id@,
            team_field_id: self.team_field_id@,
            team_option_id: self.team_option_id@,
            deadline_field_id: self.deadline_field_id@,
            deadline_option_id: crate::project_repo::opt_view(self.deadline_option_id),
        }
    }
}

/// One mutation the reconciler plans.
#[derive(Debug, PartialEq)]
pub enum MilestoneAction {
    /// Update the tracking issue; each field is sent only when it differs.
    UpdateIssue {
        issue_id: String,
        title: Option<String>,
        body: Option<String>,
        state: Option<State>,
    },
    /// Delete an item from a board.
    RemoveFromProject { project_id: String, item_id: String },
    /// Set a single-select field of an item.
    SetField { project_id: String, item_id: String, field_id: String, option_id: String },
    /// Clear a single-select field of an item.
    ClearField { project_id: String, item_id: String, field_id: String },
    /// Create the tracking issue, place it on the tools board, and, for a
    /// public milestone, on the roadmap board.
    CreateIssue {
        repo_id: String,
        title: String,
        body: String,
        tools: ToolsItemPlan,
        roadmap: Option<RoadmapItemPlan>,
    },
    /// Place an existing issue on the tools board.
    AddToolsItem { issue_id: String, plan: ToolsItemPlan },
    /// Place an existing issue on the roadmap board.
    AddRoadmapItem { issue_id: String, plan: RoadmapItemPlan },
}

impl View for MilestoneAction {
    type V = ActionV;

    open spec fn view(&self) -> ActionV {
        match self {
            MilestoneAction::UpdateIssue { issue_id, title, body, state } => ActionV::UpdateIssue {
                issue_id: issue_id@,
                title: crate::project_repo::opt_view(*title),
                body: crate::project_repo::opt_view(*body),
                state: *state,
            },
            MilestoneAction::RemoveFromProject { project_id, item_id } => (
            ActionV::RemoveFromProject { project_id: project_id@, item_id: item_id@ }),
            MilestoneAction::SetField { project_id, item_id, field_id, option_id } => (
            ActionV::SetField {
                project_id: project_id@,
                item_id: item_id@,
                field_id: field_id@,
                option_id: option_id@,
            }),
            MilestoneAction::ClearField { project_id, item_id, field_id } => ActionV::ClearField {
                project_id: project_id@,
                item_id: item_id@,
                field_id: field_id@,
            },
            MilestoneAction::CreateIssue { repo_id, title, body, tools, roadmap } => (
            ActionV::CreateIssue {
                repo_id: repo_id@,
                title: title@,
                body: body@,
                tools: tools@,
                roadmap: match roadmap {
                    Some(rp) => Some(rp@),
                    None => None,
                },
            }),
            MilestoneAction::AddToolsItem { issue_id, plan } => ActionV::AddToolsItem {
                issue_id: issue_id@,
                plan: plan@,
            },
            MilestoneAction::AddRoadmapItem { issue_id, plan } => ActionV::AddRoadmapItem {
                issue_id: issue_id@,
                plan: plan@,
            },
        }
    }
}

impl DeepView for MilestoneAction {
    type V = ActionV;

    open spec fn deep_view(&self) -> ActionV {
        self.view()
    }
}

/// The deadline column for a milestone's due date: `None` when the
/// milestone has no due date or the board has no column for its quarter.
pub open spec fn deadline_for(roadmap: RoadmapProjectV, due: Option<DueDate>) -> Option<
    Seq<char>,
> {
    match due {
        Some(d) => resolved_id(roadmap.deadline, quarter_label_view(d)),
        None => None,
    }
}

/// The placement of a tracking issue on the tools board: the configured
/// milestone status column. `None` when the column is not found.
pub open spec fn tools_plan_view(tools: ToolsProjectV, status_name: Seq<char>) -> Option<
    ToolsPlanV,
> {
    match resolved_id(tools.status, status_name) {
        Some(id) => Some(
            ToolsPlanV {
                project_id: tools.id,
                status_field_id: tools.status.id,
                status_option_id: id,
            },
        ),
        None => None,
    }
}

/// The placement of a tracking issue on the roadmap board: status from the
/// milestone state, the configured team, and the mapped deadline (cleared
/// when absent). `None` when the status or team option is not found.
pub open spec fn roadmap_plan_view(
    roadmap: RoadmapProjectV,
    m: MilestoneV,
    team_name: Seq<char>,
) -> Option<RoadmapPlanV> {
    match (resolved_id(roadmap.status, state_name(m.state)), resolved_id(
        roadmap.team,
        team_name,
    )) {
        (Some(st), Some(tm)) => Some(
            RoadmapPlanV {
                project_id: roadmap.id,
                status_field_id: roadmap.status.id,
                status_option_id: st,
                team_field_id: roadmap.team.id,
                team_option_id: tm,
                deadline_field_id: roadmap.deadline.id,
                deadline_option_id: deadline_for(roadmap, m.due_on),
            },
        ),
        _ => None,
    }
}

/// The issue-update row of the decision table: title, body and state are
/// each sent only when they differ from what the milestone expects; nothing
/// is planned when all three already agree.
pub open spec fn issue_update_view(
    issue: ProjectIssueV,
    title: Seq<char>,
    body: Seq<char>,
    state: State,
) -> Seq<ActionV> {
    let t = if issue.title != title {
        Some(title)
    } else {
        None
    };
    let b = if issue.description != body {
        Some(body)
    } else {
        None
    };
    let s = if issue.state != state {
        Some(state)
    } else {
        None
    };
    if t is Some || b is Some || s is Some {
        seq![ActionV::UpdateIssue { issue_id: issue.id, title: t, body: b, state: s }]
    } else {
        seq![]
    }
}

/// The tools-board rows of the decision table for a matched issue:
/// a closed milestone's item is removed; an open milestone's item has its
/// status put in the configured column, or is created there.
pub open spec fn tools_sync_view(
    issue: ProjectIssueV,
    tools: ToolsProjectV,
    mstate: State,
    status_name: Seq<char>,
) -> Result<Seq<ActionV>, FieldError> {
    match issue.tools_project {
        Some(link) => {
            if mstate == State::CLOSED {
                Ok(
                    seq![
                        ActionV::RemoveFromProject { project_id: tools.id, item_id: link.item_id },
                    ],
                )
            } else {
                match resolved_id(tools.status, status_name) {
                    None => Err(FieldError::FieldNotFound),
                    Some(id) => if link.status_id != Some(id) {
                        Ok(
                            seq![
                                ActionV::SetField {
                                    project_id: tools.id,
                                    item_id: link.item_id,
                                    field_id: tools.status.id,
                                    option_id: id,
                                },
                            ],
                        )
                    } else {
                        Ok(seq![])
                    },
                }
            }
        },
        None => {
            if mstate == State::OPEN {
                match tools_plan_view(tools, status_name) {
                    None => Err(FieldError::FieldNotFound),
                    Some(tp) => Ok(seq![ActionV::AddToolsItem { issue_id: issue.id, plan: tp }]),
                }
            } else {
                Ok(seq![])
            }
        },
    }
}

/// The roadmap-board rows of the decision table for a matched issue:
/// a non-public milestone's item is removed; a public one has status, team
/// and deadline brought into line, except that a closed milestone whose
/// quarter has no column is removed from the roadmap instead; a public open
/// milestone without an item gets one.
pub open spec fn roadmap_sync_view(
    issue: ProjectIssueV,
    roadmap: RoadmapProjectV,
    m: MilestoneV,
    team_name: Seq<char>,
) -> Result<Seq<ActionV>, FieldError> {
    let is_public = is_public_view(m.title);
    match issue.roadmap_project {
        Some(link) => {
            if !is_public {
                Ok(
                    seq![
                        ActionV::RemoveFromProject {
                            project_id: roadmap.id,
                            item_id: link.item_id,
                        },
                    ],
                )
            } else {
                match (resolved_id(roadmap.status, state_name(m.state)), resolved_id(
                    roadmap.team,
                    team_name,
                )) {
                    (Some(st), Some(tm)) => {
                        let status_acts = if link.status_id != Some(st) {
                            seq![
                                ActionV::SetField {
                                    project_id: roadmap.id,
                                    item_id: link.item_id,
                                    field_id: roadmap.status.id,
                                    option_id: st,
                                },
                            ]
                        } else {
                            seq![]
                        };
                        let team_acts = if link.team_id != Some(tm) {
                            seq![
                                ActionV::SetField {
                                    project_id: roadmap.id,
                                    item_id: link.item_id,
                                    field_id: roadmap.team.id,
                                    option_id: tm,
                                },
                            ]
                        } else {
                            seq![]
                        };
                        let dl = deadline_for(roadmap, m.due_on);
                        let dl_acts = if dl is None && m.state == State::CLOSED {
                            seq![
                                ActionV::RemoveFromProject {
                                    project_id: roadmap.id,
                                    item_id: link.item_id,
                                },
                            ]
                        } else if link.deadline_id != dl {
                            match dl {
                                Some(d) => seq![
                                    ActionV::SetField {
                                        project_id: roadmap.id,
                                        item_id: link.item_id,
                                        field_id: roadmap.deadline.id,
                                        option_id: d,
                                    },
                                ],
                                None => seq![
                                    ActionV::ClearField {
                                        project_id: roadmap.id,
                                        item_id: link.item_id,
                                        field_id: roadmap.deadline.id,
                                    },
                                ],
                            }
                        } else {
                            seq![]
                        };
                        Ok(status_acts + team_acts + dl_acts)
                    },
                    _ => Err(FieldError::FieldNotFound),
                }
            }
        },
        None => {
            if is_public && m.state == State::OPEN {
                match roadmap_plan_view(roadmap, m, team_name) {
                    Some(rp) => Ok(seq![ActionV::AddRoadmapItem { issue_id: issue.id, plan: rp }]),
                    None => Err(FieldError::FieldNotFound),
                }
            } else {
                Ok(seq![])
            }
        },
    }
}

/// The whole decision table for one milestone. With no matching tracking
/// issue, a closed milestone is skipped and an open one gets a tracking
/// issue created and placed; with a matching issue, its text, state and
/// board presence are each brought into line.
pub open spec fn plan_milestone_view(
    org: Seq<char>,
    repo: Seq<char>,
    m: MilestoneV,
    repo_v: ProjectRepoV,
    projects: ProjectsV,
    status_name: Seq<char>,
    team_name: Seq<char>,
) -> Result<Seq<ActionV>, FieldError> {
    let url = milestone_url_view(org, repo, m.number);
    let slug = match_slug_view(url);
    let title = expected_title_view(repo, m.title);
    let body = expected_body_view(slug, m.description, url);
    match first_matching_issue(repo_v.issues, slug) {
        None => {
            if m.state == State::CLOSED {
                Ok(seq![])
            } else {
                match tools_plan_view(projects.tools, status_name) {
                    None => Err(FieldError::FieldNotFound),
                    Some(tp) => {
                        if is_public_view(m.title) {
                            match roadmap_plan_view(projects.roadmap, m, team_name) {
                                None => Err(FieldError::FieldNotFound),
                                Some(rp) => Ok(
                                    seq![
                                        ActionV::CreateIssue {
                                            repo_id: repo_v.id,
                                            title: title,
                                            body: body,
                                            tools: tp,
                                            roadmap: Some(rp),
                                        },
                                    ],
                                ),
                            }
                        } else {
                            Ok(
                                seq![
                                    ActionV::CreateIssue {
                                        repo_id: repo_v.id,
                                        title: title,
                                        body: body,
                                        tools: tp,
                                        roadmap: None,
                                    },
                                ],
                            )
                        }
                    },
                }
            }
        },
        Some(ix) => {
            let issue = repo_v.issues[ix];
            match tools_sync_view(issue, projects.tools, m.state, status_name) {
                Err(e) => Err(e),
                Ok(tools_acts) => match roadmap_sync_view(issue, projects.roadmap, m, team_name) {
                    Err(e) => Err(e),
                    Ok(road_acts) => Ok(
                        issue_update_view(issue, title, body, m.state) + tools_acts + road_acts,
                    ),
                },
            }
        },
    }
}

/// Builds the tools-board placement, as `tools_plan_view` describes.
pub fn make_tools_plan(tools: &ToolsProject, status_name: &str) -> (r: Result<
    ToolsItemPlan,
    FieldError,
>)
    ensures
        r is Ok <==> tools_plan_view(tools@, status_name@) is Some,
        r matches Ok(tp) ==> tools_plan_view(tools@, status_name@) == Some(tp@),
        r matches Err(e) ==> e == FieldError::FieldNotFound,
{
    let status_option_id = match get_tools_project_status_id(tools, status_name) {
        Ok(id) => id,
        Err(e) => {
            return Err(e);
        },
    };
    Ok(
        ToolsItemPlan {
            project_id: tools.id.clone(),
            status_field_id: tools.status.id.clone(),
            status_option_id,
        },
    )
}

/// Builds the roadmap-board placement, as `roadmap_plan_view` describes.
pub fn make_roadmap_plan(roadmap: &RoadmapProject, milestone: &Milestone, team_name: &str) -> (r:
    Result<RoadmapItemPlan, FieldError>)
    requires
        milestone.wf(),
    ensures
        r is Ok <==> roadmap_plan_view(roadmap@, milestone@, team_name@) is Some,
        r matches Ok(rp) ==> roadmap_plan_view(roadmap@, milestone@, team_name@) == Some(rp@),
        r matches Err(e) ==> e == FieldError::FieldNotFound,
{
    let status_option_id = match get_roadmap_project_state_id(roadmap, milestone.state) {
        Ok(id) => id,
        Err(e) => {
            return Err(e);
        },
    };
    let team_option_id = match get_roadmap_project_team_id(roadmap, team_name) {
        Ok(id) => id,
        Err(e) => {
            return Err(e);
        },
    };
    let deadline_option_id = match &milestone.due_on {
        Some(due) => try_get_matching_roadmap_deadline(roadmap, due),
        None => None,
    };
    Ok(
        RoadmapItemPlan {
            project_id: roadmap.id.clone(),
            status_field_id: roadmap.status.id.clone(),
            status_option_id,
            team_field_id: roadmap.team.id.clone(),
            team_option_id,
            deadline_field_id: roadmap.deadline.id.clone(),
            deadline_option_id,
        },
    )
}

/// Plans the issue update, as `issue_update_view` describes.
pub fn plan_issue_update(
    issue: &ProjectIssue,
    title: &String,
    body: &String,
    state: State,
) -> (r: Vec<MilestoneAction>)
    ensures
        r.deep_view() =~= issue_update_view(issue@, title@, body@, state),
{
    let update_title = !crate::text::str_eq(issue.title.as_str(), title.as_str());
    let update_body = !crate::text::str_eq(issue.description.as_str(), body.as_str());
    let update_state = issue.state != state;
    let mut r: Vec<MilestoneAction> = Vec::new();
    if update_title || update_body || update_state {
        r.push(
            MilestoneAction::UpdateIssue {
                issue_id: issue.id.clone(),
                title: if update_title {
                    Some(title.clone())
                } else {
                    None
                },
                body: if update_body {
                    Some(body.clone())
                } else {
                    None
                },
                state: if update_state {
                    Some(state)
                } else {
                    None
                },
            },
        );
    }
    r
}

/// Plans the tools-board rows for a matched issue, as `tools_sync_view`
/// describes.
pub fn plan_tools_sync(
    issue: &ProjectIssue,
    tools: &ToolsProject,
    mstate: State,
    status_name: &str,
) -> (r: Result<Vec<MilestoneAction>, FieldError>)
    ensures
        r is Ok <==> tools_sync_view(issue@, tools@, mstate, status_name@) is Ok,
        r matches Ok(acts) ==> tools_sync_view(issue@, tools@, mstate, status_name@) matches Ok(
            v,
        ) && acts.deep_view() =~= v,
        r matches Err(e) ==> tools_sync_view(issue@, tools@, mstate, status_name@) == Err::<
            Seq<ActionV>,
            FieldError,
        >(e),
{
    let mut r: Vec<MilestoneAction> = Vec::new();
    match &issue.tools_project {
        Some(link) => {
            if mstate == State::CLOSED {
                r.push(
                    MilestoneAction::RemoveFromProject {
                        project_id: tools.id.clone(),
                        item_id: link.item_id.clone(),
                    },
                );
            } else {
                let expected = match get_tools_project_status_id(tools, status_name) {
                    Ok(id) => id,
                    Err(e) => {
                        return Err(e);
                    },
                };
                if !crate::utils::opt_str_eq(&link.status_id, &expected) {
                    r.push(
                        MilestoneAction::SetField {
                            project_id: tools.id.clone(),
                            item_id: link.item_id.clone(),
                            field_id: tools.status.id.clone(),
                            option_id: expected,
                        },
                    );
                }
            }
        },
        None => {
            if mstate == State::OPEN {
                let plan = match make_tools_plan(tools, status_name) {
                    Ok(tp) => tp,
                    Err(e) => {
                        return Err(e);
                    },
                };
                r.push(MilestoneAction::AddToolsItem { issue_id: issue.id.clone(), plan });
            }
        },
    }
    Ok(r)
}

/// Plans the roadmap-board rows for a matched issue, as `roadmap_sync_view`
/// describes.
pub fn plan_roadmap_sync(
    issue: &ProjectIssue,
    roadmap: &RoadmapProject,
    milestone: &Milestone,
    team_name: &str,
) -> (r: Result<Vec<MilestoneAction>, FieldError>)
    requires
        milestone.wf(),
    ensures
        r is Ok <==> roadmap_sync_view(issue@, roadmap@, milestone@, team_name@) is Ok,
        r matches Ok(acts) ==> roadmap_sync_view(issue@, roadmap@, milestone@, team_name@) matches
            Ok(v) && acts.deep_view() =~= v,
        r matches Err(e) ==> roadmap_sync_view(issue@, roadmap@, milestone@, team_name@) == Err::<
            Seq<ActionV>,
            FieldError,
        >(e),
{
    let is_public = is_public_title(milestone.title.as_str());
    let mut r: Vec<MilestoneAction> = Vec::new();
    match &issue.roadmap_project {
        Some(link) => {
            if !is_public {
                r.push(
                    MilestoneAction::RemoveFromProject {
                        project_id: roadmap.id.clone(),
                        item_id: link.item_id.clone(),
                    },
                );
            } else {
                let expected_status = match get_roadmap_project_state_id(
                    roadmap,
                    milestone.state,
                ) {
                    Ok(id) => id,
                    Err(e) => {
                        return Err(e);
                    },
                };
                let expected_team = match get_roadmap_project_team_id(roadmap, team_name) {
                    Ok(id) => id,
                    Err(e) => {
                        return Err(e);
                    },
                };
                if !crate::utils::opt_str_eq(&link.status_id, &expected_status) {
                    r.push(
                        MilestoneAction::SetField {
                            project_id: roadmap.id.clone(),
                            item_id: link.item_id.clone(),
                            field_id: roadmap.status.id.clone(),
                            option_id: expected_status,
                        },
                    );
                }
                if !crate::utils::opt_str_eq(&link.team_id, &expected_team) {
                    r.push(
                        MilestoneAction::SetField {
                            project_id: roadmap.id.clone(),
                            item_id: link.item_id.clone(),
                            field_id: roadmap.team.id.clone(),
                            option_id: expected_team,
                        },
                    );
                }
                let expected_deadline = match &milestone.due_on {
                    Some(due) => try_get_matching_roadmap_deadline(roadmap, due),
                    None => None,
                };
                proof {
                    assert(crate::project_repo::opt_view(expected_deadline) == deadline_for(
                        roadmap@,
                        milestone@.due_on,
                    ));
                }
                match &expected_deadline {
                    None => {
                        if milestone.state == State::CLOSED {
                            r.push(
                                MilestoneAction::RemoveFromProject {
                                    project_id: roadmap.id.clone(),
                                    item_id: link.item_id.clone(),
                                },
                            );
                        } else {
                            if link.deadline_id.is_some() {
                                r.push(
                                    MilestoneAction::ClearField {
                                        project_id: roadmap.id.clone(),
                                        item_id: link.item_id.clone(),
                                        field_id: roadmap.deadline.id.clone(),
                                    },
                                );
                            }
                        }
                    },
                    Some(d) => {
                        if !crate::utils::opt_str_eq(&link.deadline_id, d) {
                            r.push(
                                MilestoneAction::SetField {
                                    project_id: roadmap.id.clone(),
                                    item_id: link.item_id.clone(),
                                    field_id: roadmap.deadline.id.clone(),
                                    option_id: d.clone(),
                                },
                            );
                        }
                    },
                }
            }
        },
        None => {
            if is_public && milestone.state == State::OPEN {
                let plan = match make_roadmap_plan(roadmap, milestone, team_name) {
                    Ok(rp) => rp,
                    Err(e) => {
                        return Err(e);
                    },
                };
                r.push(MilestoneAction::AddRoadmapItem { issue_id: issue.id.clone(), plan });
            }
        },
    }
    Ok(r)
}

/// The whole decision table for one milestone, as `plan_milestone_view`
/// describes: the mutations, in order, that bring the milestone's tracking
/// issue and its presence on both boards into line. `FieldNotFound` exactly
/// when a needed status or team column is missing from a board.
pub fn plan_milestone(
    org: &str,
    repo: &str,
    milestone: &Milestone,
    project_repo: &ProjectRepo,
    projects: &Projects,
    local_project_milestone_status: &str,
    roadmap_team_name: &str,
) -> (r: Result<Vec<MilestoneAction>, FieldError>)
    requires
        milestone.wf(),
    ensures
        ({
            let plan = plan_milestone_view(
                org@,
                repo@,
                milestone@,
                project_repo@,
                projects@,
                local_project_milestone_status@,
                roadmap_team_name@,
            );
            &&& r is Ok <==> plan is Ok
            &&& r matches Ok(acts) ==> plan matches Ok(v) && acts.deep_view() =~= v
            &&& r matches Err(e) ==> plan == Err::<Seq<ActionV>, FieldError>(e)
        }),
{
    let url = milestone_url(org, repo, milestone.number);
    let slug = match_slug(url.as_str());
    let title = expected_title(repo, milestone.title.as_str());
    let body = expected_body(slug.as_str(), milestone.description.as_str(), url.as_str());
    proof {
        // The derived strings agree with their spec forms, so the spec
        // decision table below is driven by the same values.
        assert(url@ == milestone_url_view(org@, repo@, milestone@.number));
        assert(slug@ == match_slug_view(url@));
        assert(title@ == expected_title_view(repo@, milestone@.title));
        assert(body@ == expected_body_view(slug@, milestone@.description, url@));
    }
    proof {
        lemma_first_matching_issue(project_repo.issues.deep_view(), slug@);
    }
    match find_matching_issue(&project_repo.issues, slug.as_str()) {
        Some(ix) => {
            let issue = &project_repo.issues[ix];
            proof {
                assert(project_repo@.issues[ix as int] == issue@);
            }
            let update_acts = plan_issue_update(issue, &title, &body, milestone.state);
            let mut tools_acts = match plan_tools_sync(
                issue,
                &projects.tools,
                milestone.state,
                local_project_milestone_status,
            ) {
                Ok(acts) => acts,
                Err(e) => {
                    return Err(e);
                },
            };
            let mut road_acts = match plan_roadmap_sync(
                issue,
                &projects.roadmap,
                milestone,
                roadmap_team_name,
            ) {
                Ok(acts) => acts,
                Err(e) => {
                    return Err(e);
                },
            };
            let ghost update_v = update_acts.deep_view();
            let ghost tools_v = tools_acts.deep_view();
            let ghost road_v = road_acts.deep_view();
            let mut acts = update_acts;
            acts.append(&mut tools_acts);
            acts.append(&mut road_acts);
            proof {
                assert(acts.deep_view() =~= update_v + tools_v + road_v);
            }
            Ok(acts)
        },
        None => {
            if milestone.state == State::CLOSED {
                return Ok(Vec::new());
            }
            let tools_plan = match make_tools_plan(
                &projects.tools,
                local_project_milestone_status,
            ) {
                Ok(tp) => tp,
                Err(e) => {
                    return Err(e);
                },
            };
            let roadmap_plan = if is_public_title(milestone.title.as_str()) {
                match make_roadmap_plan(&projects.roadmap, milestone, roadmap_team_name) {
                    Ok(rp) => Some(rp),
                    Err(e) => {
                        return Err(e);
                    },
                }
            } else {
                None
            };
            let mut acts: Vec<MilestoneAction> = Vec::new();
            acts.push(
                MilestoneAction::CreateIssue {
                    repo_id: project_repo.id.clone(),
                    title,
                    body,
                    tools: tools_plan,
                    roadmap: roadmap_plan,
                },
            );
            Ok(acts)
        },
    }
}

/// Ghost model of the identifiers the upstream system mints while a plan
/// executes: the created issue's id and the item ids of new board rows.
pub ghost struct FreshIds {
    pub issue_id: Seq<char>,
    pub tools_item_id: Seq<char>,
    pub roadmap_item_id: Seq<char>,
}

/// The upstream effect of one planned mutation on one tracking issue.
/// Identifier equality decides what is touched, exactly as the upstream
/// system would route the call.
pub open spec fn apply_action_to_issue(
    a: ActionV,
    i: ProjectIssueV,
    projects: ProjectsV,
    fresh: FreshIds,
) -> ProjectIssueV {
    match a {
        ActionV::UpdateIssue { issue_id, title, body, state } => {
            if i.id == issue_id {
                ProjectIssueV {
                    title: match title {
                        Some(t) => t,
                        None => i.title,
                    },
                    description: match body {
                        Some(b) => b,
                        None => i.description,
                    },
                    state: match state {
                        Some(s) => s,
                        None => i.state,
                    },
                    ..i
                }
            } else {
                i
            }
        },
        ActionV::RemoveFromProject { project_id, item_id } => {
            if project_id == projects.tools.id && (i.tools_project matches Some(l) && l.item_id
                == item_id) {
                ProjectIssueV { tools_project: None, ..i }
            } else if project_id == projects.roadmap.id && (i.roadmap_project matches Some(l)
                && l.item_id == item_id) {
                ProjectIssueV { roadmap_project: None, ..i }
            } else {
                i
            }
        },
        ActionV::SetField { project_id, item_id, field_id, option_id } => {
            if project_id == projects.tools.id && (i.tools_project matches Some(l) && l.item_id
                == item_id) && field_id == projects.tools.status.id {
                ProjectIssueV {
                    tools_project: Some(
                        ToolsLinkV {
                            status_id: Some(option_id),
                            ..i.tools_project.unwrap()
                        },
                    ),
                    ..i
                }
            } else if project_id == projects.roadmap.id && (i.roadmap_project matches Some(l)
                && l.item_id == item_id) {
                if field_id == projects.roadmap.status.id {
                    ProjectIssueV {
                        roadmap_project: Some(
                            RoadmapLinkV {
                                status_id: Some(option_id),
                                ..i.roadmap_project.unwrap()
                            },
                        ),
                        ..i
                    }
                } else if field_id == projects.roadmap.team.id {
                    ProjectIssueV {
                        roadmap_project: Some(
                            RoadmapLinkV {
                                team_id: Some(option_id),
                                ..i.roadmap_project.unwrap()
                            },
                        ),
                        ..i
                    }
                } else if field_id == projects.roadmap.deadline.id {
                    ProjectIssueV {
                        roadmap_project: Some(
                            RoadmapLinkV {
                                deadline_id: Some(option_id),
                                ..i.roadmap_project.unwrap()
                            },
                        ),
                        ..i
                    }
                } else {
                    i
                }
            } else {
                i
            }
        },
        ActionV::ClearField { project_id, item_id, field_id } => {
            if project_id == projects.roadmap.id && (i.roadmap_project matches Some(l)
                && l.item_id == item_id) && field_id == projects.roadmap.deadline.id {
                ProjectIssueV {
                    roadmap_project: Some(
                        RoadmapLinkV { deadline_id: None, ..i.roadmap_project.unwrap() },
                    ),
                    ..i
                }
            } else {
                i
            }
        },
        ActionV::AddToolsItem { issue_id, plan } => {
            if i.id == issue_id {
                ProjectIssueV {
                    tools_project: Some(
                        ToolsLinkV {
                            item_id: fresh.tools_item_id,
                            status_id: Some(plan.status_option_id),
                        },
                    ),
                    ..i
                }
            } else {
                i
            }
        },
        ActionV::AddRoadmapItem { issue_id, plan } => {
            if i.id == issue_id {
                ProjectIssueV {
                    roadmap_project: Some(
                        RoadmapLinkV {
                            item_id: fresh.roadmap_item_id,
                            status_id: Some(plan.status_option_id),
                            team_id: Some(plan.team_option_id),
                            deadline_id: plan.deadline_option_id,
                        },
                    ),
                    ..i
                }
            } else {
                i
            }
        },
        ActionV::CreateIssue { .. } => i,
    }
}

/// The issue a `CreateIssue` action brings into being: open, with the
/// planned text, placed on the tools board and, when planned, the roadmap
/// board.
pub open spec fn created_issue(
    title: Seq<char>,
    body: Seq<char>,
    tools: ToolsPlanV,
    roadmap: Option<RoadmapPlanV>,
    fresh: FreshIds,
) -> ProjectIssueV {
    ProjectIssueV {
        id: fresh.issue_id,
        title: title,
        state: State::OPEN,
        description: body,
        tools_project: Some(
            ToolsLinkV {
                item_id: fresh.tools_item_id,
                status_id: Some(tools.status_option_id),
            },
        ),
        roadmap_project: match roadmap {
            Some(rp) => Some(
                RoadmapLinkV {
                    item_id: fresh.roadmap_item_id,
                    status_id: Some(rp.status_option_id),
                    team_id: Some(rp.team_option_id),
                    deadline_id: rp.deadline_option_id,
                },
            ),
            None => None,
        },
    }
}

/// The upstream effect of one planned mutation on the whole issue list.
pub open spec fn apply_action(
    issues: Seq<ProjectIssueV>,
    a: ActionV,
    projects: ProjectsV,
    fresh: FreshIds,
) -> Seq<ProjectIssueV> {
    match a {
        ActionV::CreateIssue { repo_id, title, body, tools, roadmap } => issues.push(
            created_issue(title, body, tools, roadmap, fresh),
        ),
        _ => issues.map_values(|i: ProjectIssueV| apply_action_to_issue(a, i, projects, fresh)),
    }
}

/// The upstream effect of a whole plan, applied in order.
pub open spec fn apply_actions(
    issues: Seq<ProjectIssueV>,
    acts: Seq<ActionV>,
    projects: ProjectsV,
    fresh: FreshIds,
) -> Seq<ProjectIssueV>
    decreases acts.len(),
{
    if acts.len() == 0 {
        issues
    } else {
        apply_actions(apply_action(issues, acts[0], projects, fresh), acts.drop_first(), projects, fresh)
    }
}

/// The effect of a plan on one issue, action by action.
pub open spec fn apply_to_issue_seq(
    i: ProjectIssueV,
    acts: Seq<ActionV>,
    projects: ProjectsV,
    fresh: FreshIds,
) -> ProjectIssueV
    decreases acts.len(),
{
    if acts.len() == 0 {
        i
    } else {
        apply_to_issue_seq(
            apply_action_to_issue(acts[0], i, projects, fresh),
            acts.drop_first(),
            projects,
            fresh,
        )
    }
}

proof fn lemma_apply_one(i: ProjectIssueV, a: ActionV, projects: ProjectsV, fresh: FreshIds)
    ensures
        apply_to_issue_seq(i, seq![a], projects, fresh) == apply_action_to_issue(
            a,
            i,
            projects,
            fresh,
        ),
{
    reveal_with_fuel(apply_to_issue_seq, 3);
    assert(seq![a].drop_first() =~= Seq::<ActionV>::empty());
    assert(seq![a][0] == a);
}

proof fn lemma_apply_empty(i: ProjectIssueV, projects: ProjectsV, fresh: FreshIds)
    ensures
        apply_to_issue_seq(i, Seq::<ActionV>::empty(), projects, fresh) == i,
{
}

proof fn lemma_apply_to_issue_seq_append(
    i: ProjectIssueV,
    a: Seq<ActionV>,
    b: Seq<ActionV>,
    projects: ProjectsV,
    fresh: FreshIds,
)
    ensures
        apply_to_issue_seq(i, a + b, projects, fresh) == apply_to_issue_seq(
            apply_to_issue_seq(i, a, projects, fresh),
            b,
            projects,
            fresh,
        ),
    decreases a.len(),
{
    if a.len() == 0 {
        assert(a + b =~= b);
    } else {
        let i1 = apply_action_to_issue(a[0], i, projects, fresh);
        lemma_apply_to_issue_seq_append(i1, a.drop_first(), b, projects, fresh);
        assert((a + b).drop_first() =~= a.drop_first() + b);
        assert((a + b)[0] == a[0]);
    }
}

proof fn lemma_apply_to_issue_seq_fixed(
    i: ProjectIssueV,
    acts: Seq<ActionV>,
    projects: ProjectsV,
    fresh: FreshIds,
)
    requires
        forall|k: int|
            0 <= k < acts.len() ==> apply_action_to_issue(#[trigger] acts[k], i, projects, fresh)
                == i,
    ensures
        apply_to_issue_seq(i, acts, projects, fresh) == i,
    decreases acts.len(),
{
    if acts.len() == 0 {
    } else {
        assert(apply_action_to_issue(acts[0], i, projects, fresh) == i);
        assert(forall|k: int|
            0 <= k < acts.drop_first().len() ==> #[trigger] acts.drop_first()[k] == acts[k + 1]);
        lemma_apply_to_issue_seq_fixed(i, acts.drop_first(), projects, fresh);
    }
}

/// No action of `acts` creates an issue.
pub open spec fn no_create(acts: Seq<ActionV>) -> bool {
    forall|k: int| 0 <= k < acts.len() ==> !(#[trigger] acts[k] is CreateIssue)
}

proof fn lemma_apply_actions_no_create(
    issues: Seq<ProjectIssueV>,
    acts: Seq<ActionV>,
    projects: ProjectsV,
    fresh: FreshIds,
)
    requires
        no_create(acts),
    ensures
        apply_actions(issues, acts, projects, fresh).len() == issues.len(),
        forall|j: int|
            0 <= j < issues.len() ==> apply_actions(issues, acts, projects, fresh)[j]
                == apply_to_issue_seq(#[trigger] issues[j], acts, projects, fresh),
    decreases acts.len(),
{
    if acts.len() == 0 {
    } else {
        let issues1 = apply_action(issues, acts[0], projects, fresh);
        assert(!(acts[0] is CreateIssue));
        assert(issues1.len() == issues.len());
        assert(forall|k: int|
            0 <= k < acts.drop_first().len() ==> #[trigger] acts.drop_first()[k] == acts[k + 1]);
        lemma_apply_actions_no_create(issues1, acts.drop_first(), projects, fresh);
        assert forall|j: int|
            0 <= j < issues.len() implies apply_actions(issues, acts, projects, fresh)[j]
            == apply_to_issue_seq(#[trigger] issues[j], acts, projects, fresh) by {
            assert(issues1[j] == apply_action_to_issue(acts[0], issues[j], projects, fresh));
            assert(apply_actions(issues, acts, projects, fresh) == apply_actions(
                issues1,
                acts.drop_first(),
                projects,
                fresh,
            ));
        }
    }
}

proof fn lemma_update_effect(
    i: ProjectIssueV,
    title: Seq<char>,
    body: Seq<char>,
    state: State,
    projects: ProjectsV,
    fresh: FreshIds,
)
    ensures
        ({
            let i1 = apply_to_issue_seq(
                i,
                issue_update_view(i, title, body, state),
                projects,
                fresh,
            );
            &&& i1.id == i.id
            &&& i1.title == title
            &&& i1.description == body
            &&& i1.state == state
            &&& i1.tools_project == i.tools_project
            &&& i1.roadmap_project == i.roadmap_project
        }),
{
    let upd = issue_update_view(i, title, body, state);
    if i.title != title || i.description != body || i.state != state {
        lemma_apply_one(i, upd[0], projects, fresh);
    } else {
        lemma_apply_empty(i, projects, fresh);
        assert(upd =~= Seq::<ActionV>::empty());
    }
}

proof fn lemma_tools_idem(
    i1: ProjectIssueV,
    mstate: State,
    status_name: Seq<char>,
    projects: ProjectsV,
    fresh: FreshIds,
    tacts: Seq<ActionV>,
)
    requires
        tools_sync_view(i1, projects.tools, mstate, status_name) == Ok::<
            Seq<ActionV>,
            FieldError,
        >(tacts),
    ensures
        ({
            let i2 = apply_to_issue_seq(i1, tacts, projects, fresh);
            &&& tools_sync_view(i2, projects.tools, mstate, status_name) == Ok::<
                Seq<ActionV>,
                FieldError,
            >(Seq::<ActionV>::empty())
            &&& i2.id == i1.id
            &&& i2.title == i1.title
            &&& i2.description == i1.description
            &&& i2.state == i1.state
            &&& i2.roadmap_project == i1.roadmap_project
        }),
{
    let tools = projects.tools;
    match i1.tools_project {
        Some(link) => {
            if mstate == State::CLOSED {
                lemma_apply_one(i1, tacts[0], projects, fresh);
                assert(tacts =~= seq![
                    ActionV::RemoveFromProject { project_id: tools.id, item_id: link.item_id },
                ]);
            } else {
                let rid = resolved_id(tools.status, status_name).unwrap();
                if link.status_id != Some(rid) {
                    lemma_apply_one(i1, tacts[0], projects, fresh);
                } else {
                    lemma_apply_empty(i1, projects, fresh);
                    assert(tacts =~= Seq::<ActionV>::empty());
                }
            }
        },
        None => {
            if mstate == State::OPEN {
                lemma_apply_one(i1, tacts[0], projects, fresh);
            } else {
                lemma_apply_empty(i1, projects, fresh);
                assert(tacts =~= Seq::<ActionV>::empty());
            }
        },
    }
}

/// The board and field identifiers a run works against are pairwise
/// distinct, as upstream guarantees of real boards.
pub open spec fn projects_distinct(projects: ProjectsV) -> bool {
    &&& projects.tools.id != projects.roadmap.id
    &&& projects.roadmap.status.id != projects.roadmap.team.id
    &&& projects.roadmap.status.id != projects.roadmap.deadline.id
    &&& projects.roadmap.team.id != projects.roadmap.deadline.id
}

proof fn lemma_roadmap_idem(
    i2: ProjectIssueV,
    m: MilestoneV,
    team_name: Seq<char>,
    projects: ProjectsV,
    fresh: FreshIds,
    racts: Seq<ActionV>,
)
    requires
        projects_distinct(projects),
        roadmap_sync_view(i2, projects.roadmap, m, team_name) == Ok::<
            Seq<ActionV>,
            FieldError,
        >(racts),
    ensures
        ({
            let i3 = apply_to_issue_seq(i2, racts, projects, fresh);
            &&& roadmap_sync_view(i3, projects.roadmap, m, team_name) == Ok::<
                Seq<ActionV>,
                FieldError,
            >(Seq::<ActionV>::empty())
            &&& i3.id == i2.id
            &&& i3.title == i2.title
            &&& i3.description == i2.description
            &&& i3.state == i2.state
            &&& i3.tools_project == i2.tools_project
        }),
{
    let roadmap = projects.roadmap;
    let is_public = is_public_view(m.title);
    match i2.roadmap_project {
        Some(link) => {
            if !is_public {
                lemma_apply_one(i2, racts[0], projects, fresh);
                assert(racts =~= seq![
                    ActionV::RemoveFromProject { project_id: roadmap.id, item_id: link.item_id },
                ]);
            } else {
                let st = resolved_id(roadmap.status, state_name(m.state)).unwrap();
                let tm = resolved_id(roadmap.team, team_name).unwrap();
                let dl = deadline_for(roadmap, m.due_on);
                let status_acts: Seq<ActionV> = if link.status_id != Some(st) {
                    seq![
                        ActionV::SetField {
                            project_id: roadmap.id,
                            item_id: link.item_id,
                            field_id: roadmap.status.id,
                            option_id: st,
                        },
                    ]
                } else {
                    seq![]
                };
                let team_acts: Seq<ActionV> = if link.team_id != Some(tm) {
                    seq![
                        ActionV::SetField {
                            project_id: roadmap.id,
                            item_id: link.item_id,
                            field_id: roadmap.team.id,
                            option_id: tm,
                        },
                    ]
                } else {
                    seq![]
                };
                let dl_acts: Seq<ActionV> = if dl is None && m.state == State::CLOSED {
                    seq![
                        ActionV::RemoveFromProject {
                            project_id: roadmap.id,
                            item_id: link.item_id,
                        },
                    ]
                } else if link.deadline_id != dl {
                    match dl {
                        Some(d) => seq![
                            ActionV::SetField {
                                project_id: roadmap.id,
                                item_id: link.item_id,
                                field_id: roadmap.deadline.id,
                                option_id: d,
                            },
                        ],
                        None => seq![
                            ActionV::ClearField {
                                project_id: roadmap.id,
                                item_id: link.item_id,
                                field_id: roadmap.deadline.id,
                            },
                        ],
                    }
                } else {
                    seq![]
                };
                assert(racts == status_acts + team_acts + dl_acts);
                lemma_apply_to_issue_seq_append(i2, status_acts + team_acts, dl_acts, projects, fresh);
                lemma_apply_to_issue_seq_append(i2, status_acts, team_acts, projects, fresh);
                let ia = apply_to_issue_seq(i2, status_acts, projects, fresh);
                if link.status_id != Some(st) {
                    lemma_apply_one(i2, status_acts[0], projects, fresh);
                } else {
                    lemma_apply_empty(i2, projects, fresh);
                }
                // After the status step the link is present with status `st`.
                assert(ia.roadmap_project matches Some(l) && l.item_id == link.item_id
                    && l.status_id == Some(st) && l.team_id == link.team_id && l.deadline_id
                    == link.deadline_id);
                let ib = apply_to_issue_seq(ia, team_acts, projects, fresh);
                if link.team_id != Some(tm) {
                    lemma_apply_one(ia, team_acts[0], projects, fresh);
                } else {
                    lemma_apply_empty(ia, projects, fresh);
                }
                assert(ib.roadmap_project matches Some(l) && l.item_id == link.item_id
                    && l.status_id == Some(st) && l.team_id == Some(tm) && l.deadline_id
                    == link.deadline_id);
                let i3 = apply_to_issue_seq(ib, dl_acts, projects, fresh);
                assert(i3 == apply_to_issue_seq(i2, racts, projects, fresh));
                if dl is None && m.state == State::CLOSED {
                    lemma_apply_one(ib, dl_acts[0], projects, fresh);
                    assert(i3.roadmap_project is None);
                } else if link.deadline_id != dl {
                    lemma_apply_one(ib, dl_acts[0], projects, fresh);
                    assert(i3.roadmap_project matches Some(l) && l.item_id == link.item_id
                        && l.status_id == Some(st) && l.team_id == Some(tm) && l.deadline_id
                        == dl);
                } else {
                    lemma_apply_empty(ib, projects, fresh);
                    assert(i3.roadmap_project matches Some(l) && l.item_id == link.item_id
                        && l.status_id == Some(st) && l.team_id == Some(tm) && l.deadline_id
                        == dl);
                }
                assert(roadmap_sync_view(i3, roadmap, m, team_name) == Ok::<
                    Seq<ActionV>,
                    FieldError,
                >(Seq::<ActionV>::empty()));
            }
        },
        None => {
            if is_public && m.state == State::OPEN {
                lemma_apply_one(i2, racts[0], projects, fresh);
            } else {
                lemma_apply_empty(i2, projects, fresh);
                assert(racts =~= Seq::<ActionV>::empty());
            }
        },
    }
}

/// Two distinct tracking issues share no identifier: different issue ids,
/// and different item ids on each board.
pub open spec fn issue_pair_distinct(a: ProjectIssueV, b: ProjectIssueV) -> bool {
    &&& a.id != b.id
    &&& (match (a.tools_project, b.tools_project) {
        (Some(x), Some(y)) => x.item_id != y.item_id,
        _ => true,
    })
    &&& (match (a.roadmap_project, b.roadmap_project) {
        (Some(x), Some(y)) => x.item_id != y.item_id,
        _ => true,
    })
}

/// Every pair of issues in the list is distinct, as upstream identifiers
/// are.
pub open spec fn issues_distinct(issues: Seq<ProjectIssueV>) -> bool {
    forall|j1: int, j2: int|
        0 <= j1 < issues.len() && 0 <= j2 < issues.len() && j1 != j2 ==> issue_pair_distinct(
            #[trigger] issues[j1],
            #[trigger] issues[j2],
        )
}

proof fn lemma_update_fixes_other(
    matched: ProjectIssueV,
    other: ProjectIssueV,
    title: Seq<char>,
    body: Seq<char>,
    state: State,
    projects: ProjectsV,
    fresh: FreshIds,
)
    requires
        other.id != matched.id,
    ensures
        ({
            let upd = issue_update_view(matched, title, body, state);
            &&& no_create(upd)
            &&& forall|k: int|
                0 <= k < upd.len() ==> apply_action_to_issue(
                    #[trigger] upd[k],
                    other,
                    projects,
                    fresh,
                ) == other
        }),
{
}

proof fn lemma_tools_fixes_other(
    matched: ProjectIssueV,
    other: ProjectIssueV,
    mstate: State,
    status_name: Seq<char>,
    projects: ProjectsV,
    fresh: FreshIds,
    tacts: Seq<ActionV>,
)
    requires
        projects_distinct(projects),
        issue_pair_distinct(matched, other),
        tools_sync_view(matched, projects.tools, mstate, status_name) == Ok::<
            Seq<ActionV>,
            FieldError,
        >(tacts),
    ensures
        no_create(tacts),
        forall|k: int|
            0 <= k < tacts.len() ==> apply_action_to_issue(#[trigger] tacts[k], other, projects, fresh)
                == other,
{
}

proof fn lemma_roadmap_fixes_other(
    matched: ProjectIssueV,
    other: ProjectIssueV,
    m: MilestoneV,
    team_name: Seq<char>,
    projects: ProjectsV,
    fresh: FreshIds,
    racts: Seq<ActionV>,
)
    requires
        projects_distinct(projects),
        issue_pair_distinct(matched, other),
        roadmap_sync_view(matched, projects.roadmap, m, team_name) == Ok::<
            Seq<ActionV>,
            FieldError,
        >(racts),
    ensures
        no_create(racts),
        forall|k: int|
            0 <= k < racts.len() ==> apply_action_to_issue(#[trigger] racts[k], other, projects, fresh)
                == other,
{
    let roadmap = projects.roadmap;
    match matched.roadmap_project {
        Some(link) => {
            if is_public_view(m.title) {
                let st = resolved_id(roadmap.status, state_name(m.state)).unwrap();
                let tm = resolved_id(roadmap.team, team_name).unwrap();
                let dl = deadline_for(roadmap, m.due_on);
                assert forall|k: int| 0 <= k < racts.len() implies apply_action_to_issue(
                    #[trigger] racts[k],
                    other,
                    projects,
                    fresh,
                ) == other by {}
            }
        },
        None => {
        },
    }
}

proof fn lemma_update_no_create(
    matched: ProjectIssueV,
    title: Seq<char>,
    body: Seq<char>,
    state: State,
)
    ensures
        no_create(issue_update_view(matched, title, body, state)),
{
}

proof fn lemma_tools_no_create(
    matched: ProjectIssueV,
    mstate: State,
    status_name: Seq<char>,
    projects: ProjectsV,
    tacts: Seq<ActionV>,
)
    requires
        tools_sync_view(matched, projects.tools, mstate, status_name) == Ok::<
            Seq<ActionV>,
            FieldError,
        >(tacts),
    ensures
        no_create(tacts),
{
}

proof fn lemma_roadmap_no_create(
    matched: ProjectIssueV,
    m: MilestoneV,
    team_name: Seq<char>,
    projects: ProjectsV,
    racts: Seq<ActionV>,
)
    requires
        roadmap_sync_view(matched, projects.roadmap, m, team_name) == Ok::<
            Seq<ActionV>,
            FieldError,
        >(racts),
    ensures
        no_create(racts),
{
}

/// The expected body contains the milestone's marker: the marker is
/// embedded right after the editing warning.
proof fn lemma_body_contains_slug(slug: Seq<char>, description: Seq<char>, url: Seq<char>)
    ensures
        contains_seq(expected_body_view(slug, description, url), slug),
{
    let body = expected_body_view(slug, description, url);
    let a = "<!-- DO NOT EDIT. "@;
    assert(body.subrange(a.len() as int, a.len() as int + slug.len() as int) =~= slug);
    assert(matches_at(body, slug, a.len() as int));
}

/// Idempotence of the milestone reconciler: when a run plans `acts` and the
/// upstream system applies them — minting fresh identifiers for anything
/// created — a second run over the resulting state, with the milestone and
/// configuration unchanged, plans no mutations at all.
///
/// The two distinctness assumptions state only what upstream identifiers
/// already satisfy — they originate upstream, name one thing each, and are
/// compared only for equality: the two boards and the roadmap's three
/// fields carry distinct ids, and no two issues share an issue id or a
/// board item id. Without them a single planned mutation could strike two
/// snapshot entries at once, which no real board exhibits.
pub proof fn theorem_milestone_plan_idempotent(
    org: Seq<char>,
    repo: Seq<char>,
    m: MilestoneV,
    repo_v: ProjectRepoV,
    projects: ProjectsV,
    status_name: Seq<char>,
    team_name: Seq<char>,
    acts: Seq<ActionV>,
    fresh: FreshIds,
)
    requires
        projects_distinct(projects),
        issues_distinct(repo_v.issues),
        plan_milestone_view(org, repo, m, repo_v, projects, status_name, team_name) == Ok::<
            Seq<ActionV>,
            FieldError,
        >(acts),
    ensures
        plan_milestone_view(
            org,
            repo,
            m,
            ProjectRepoV {
                id: repo_v.id,
                issues: apply_actions(repo_v.issues, acts, projects, fresh),
            },
            projects,
            status_name,
            team_name,
        ) == Ok::<Seq<ActionV>, FieldError>(Seq::<ActionV>::empty()),
{
    let url = milestone_url_view(org, repo, m.number);
    let slug = match_slug_view(url);
    let title = expected_title_view(repo, m.title);
    let body = expected_body_view(slug, m.description, url);
    let issues = repo_v.issues;
    lemma_first_matching_issue(issues, slug);
    lemma_body_contains_slug(slug, m.description, url);
    match first_matching_issue(issues, slug) {
        Some(ix) => {
            let matched = issues[ix];
            let upd = issue_update_view(matched, title, body, m.state);
            let tacts = tools_sync_view(matched, projects.tools, m.state, status_name).unwrap();
            let racts = roadmap_sync_view(matched, projects.roadmap, m, team_name).unwrap();
            assert(acts == upd + tacts + racts);

            // The matched issue's own evolution through the three groups.
            lemma_apply_to_issue_seq_append(matched, upd + tacts, racts, projects, fresh);
            lemma_apply_to_issue_seq_append(matched, upd, tacts, projects, fresh);
            assert((upd + tacts) + racts =~= upd + tacts + racts);
            lemma_update_effect(matched, title, body, m.state, projects, fresh);
            let i1 = apply_to_issue_seq(matched, upd, projects, fresh);
            assert(tools_sync_view(i1, projects.tools, m.state, status_name) == Ok::<
                Seq<ActionV>,
                FieldError,
            >(tacts));
            lemma_tools_idem(i1, m.state, status_name, projects, fresh, tacts);
            let i2 = apply_to_issue_seq(i1, tacts, projects, fresh);
            assert(roadmap_sync_view(i2, projects.roadmap, m, team_name) == Ok::<
                Seq<ActionV>,
                FieldError,
            >(racts));
            lemma_roadmap_idem(i2, m, team_name, projects, fresh, racts);
            let i3 = apply_to_issue_seq(i2, racts, projects, fresh);
            assert(i3 == apply_to_issue_seq(matched, acts, projects, fresh));
            assert(i3.description == body);
            assert(issue_matches(i3, slug));

            // Other issues are left exactly as they were.
            assert(no_create(upd) && no_create(tacts) && no_create(racts)) by {
                lemma_update_no_create(matched, title, body, m.state);
                lemma_tools_no_create(matched, m.state, status_name, projects, tacts);
                lemma_roadmap_no_create(matched, m, team_name, projects, racts);
            }
            assert(no_create(acts)) by {
                assert(forall|k: int|
                    0 <= k < upd.len() ==> (upd + tacts + racts)[k] == #[trigger] upd[k]);
                assert(forall|k: int|
                    0 <= k < tacts.len() ==> (upd + tacts + racts)[upd.len() + k]
                        == #[trigger] tacts[k]);
                assert(forall|k: int|
                    0 <= k < racts.len() ==> (upd + tacts + racts)[upd.len() + tacts.len() + k]
                        == #[trigger] racts[k]);
            }
            lemma_apply_actions_no_create(issues, acts, projects, fresh);
            let issues2 = apply_actions(issues, acts, projects, fresh);
            assert(issues2[ix] == i3);
            assert forall|j: int| 0 <= j < issues.len() && j != ix implies issues2[j] == issues[j] by {
                let other = issues[j];
                assert(issue_pair_distinct(matched, other));
                lemma_update_fixes_other(matched, other, title, body, m.state, projects, fresh);
                lemma_tools_fixes_other(matched, other, m.state, status_name, projects, fresh, tacts);
                lemma_roadmap_fixes_other(matched, other, m, team_name, projects, fresh, racts);
                assert forall|k: int|
                    0 <= k < acts.len() implies apply_action_to_issue(
                    #[trigger] acts[k],
                    other,
                    projects,
                    fresh,
                ) == other by {
                    if k < upd.len() {
                        assert(acts[k] == upd[k]);
                    } else if k < upd.len() + tacts.len() {
                        assert(acts[k] == tacts[k - upd.len()]);
                    } else {
                        assert(acts[k] == racts[k - upd.len() - tacts.len()]);
                    }
                }
                lemma_apply_to_issue_seq_fixed(other, acts, projects, fresh);
            }

            // The second run matches the same issue.
            lemma_first_matching_issue(issues2, slug);
            match first_matching_issue(issues2, slug) {
                None => {
                    assert(issue_matches(issues2[ix], slug));
                    assert(false);
                },
                Some(jx) => {
                    if jx < ix {
                        assert(issues2[jx] == issues[jx]);
                        assert(!issue_matches(issues[jx], slug));
                        assert(false);
                    } else if jx > ix {
                        assert(issue_matches(issues2[ix], slug));
                        assert(false);
                    }
                    assert(jx == ix);
                },
            }

            // And it plans nothing.
            assert(issue_update_view(i3, title, body, m.state) =~= Seq::<ActionV>::empty());
            assert(Seq::<ActionV>::empty() + Seq::<ActionV>::empty() + Seq::<ActionV>::empty()
                =~= Seq::<ActionV>::empty());
        },
        None => {
            if m.state == State::CLOSED {
                assert(acts =~= Seq::<ActionV>::empty());
                let issues2 = apply_actions(issues, acts, projects, fresh);
                assert(issues2 == issues);
            } else {
                let tp = tools_plan_view(projects.tools, status_name).unwrap();
                let ci = if is_public_view(m.title) {
                    let rp = roadmap_plan_view(projects.roadmap, m, team_name).unwrap();
                    created_issue(title, body, tp, Some(rp), fresh)
                } else {
                    created_issue(title, body, tp, None, fresh)
                };
                reveal_with_fuel(apply_actions, 3);
                assert(acts.drop_first() =~= Seq::<ActionV>::empty());
                let issues2 = apply_actions(issues, acts, projects, fresh);
                assert(issues2 == issues.push(ci));
                assert(issue_matches(ci, slug));

                lemma_first_matching_issue(issues2, slug);
                let n = issues.len() as int;
                match first_matching_issue(issues2, slug) {
                    None => {
                        assert(issue_matches(issues2[n], slug));
                        assert(false);
                    },
                    Some(jx) => {
                        if jx < n {
                            assert(issues2[jx] == issues[jx]);
                            assert(!issue_matches(issues[jx], slug));
                            assert(false);
                        }
                        assert(jx == n);
                    },
                }

                // The created issue is already in line on both boards.
                assert(issue_update_view(ci, title, body, m.state) =~= Seq::<ActionV>::empty());
                assert(tools_sync_view(ci, projects.tools, m.state, status_name) == Ok::<
                    Seq<ActionV>,
                    FieldError,
                >(Seq::<ActionV>::empty()));
                assert(roadmap_sync_view(ci, projects.roadmap, m, team_name) == Ok::<
                    Seq<ActionV>,
                    FieldError,
                >(Seq::<ActionV>::empty()));
                assert(Seq::<ActionV>::empty() + Seq::<ActionV>::empty() + Seq::<
                    ActionV,
                >::empty() =~= Seq::<ActionV>::empty());
            }
        },
    }
}

} // verus!
