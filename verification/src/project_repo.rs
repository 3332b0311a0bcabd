//! The repository that hosts generated tracking issues, and those issues'
//! links onto the two boards.

use vstd::prelude::*;
use crate::common::State;

verus! {

/// Mathematical model of a tools-board link.
pub ghost struct ToolsLinkV {
    pub item_id: Seq<char>,
    pub status_id: Option<Seq<char>>,
}

/// Mathematical model of a roadmap-board link.
pub ghost struct RoadmapLinkV {
    pub item_id: Seq<char>,
    pub status_id: Option<Seq<char>>,
    pub deadline_id: Option<Seq<char>>,
    pub team_id: Option<Seq<char>>,
}

/// Mathematical model of a tracking issue.
pub ghost struct ProjectIssueV {
    pub id: Seq<char>,
    pub title: Seq<char>,
    pub state: State,
    pub description: Seq<char>,
    pub tools_project: Option<ToolsLinkV>,
    pub roadmap_project: Option<RoadmapLinkV>,
}

/// Mathematical model of the tracking repository.
pub ghost struct ProjectRepoV {
    pub id: Seq<char>,
    pub issues: Seq<ProjectIssueV>,
}

/// The view of an optional string.
pub open spec fn opt_view(o: Option<String>) -> Option<Seq<char>> {
    match o {
        Some(s) => Some(s@),
        None => None,
    }
}

/// A tracking issue's presence on the team's own board.
#[derive(Debug)]
pub struct ToolsProject {
    pub item_id: String,
    pub status_id: Option<String>,
}

impl View for ToolsProject {
    type V = ToolsLinkV;

    open spec fn view(&self) -> ToolsLinkV {
        ToolsLinkV { item_id: self.item_id@, status_id: opt_view(self.status_id) }
    }
}

/// A tracking issue's presence on the public roadmap board.
#[derive(Debug)]
pub struct RoadmapProject {
    pub item_id: String,
    pub status_id: Option<String>,
    pub deadline_id: Option<String>,
    pub team_id: Option<String>,
}

impl View for RoadmapProject {
    type V = RoadmapLinkV;

    open spec fn view(&self) -> RoadmapLinkV {
        RoadmapLinkV {
            item_id: self.item_id@,
            status_id: opt_view(self.status_id),
            deadline_id: opt_view(self.deadline_id),
            team_id: opt_view(self.team_id),
        }
    }
}

/// An issue in the tracking repository, with at most one link to each board.
#[derive(Debug)]
pub struct ProjectIssue {
    pub id: String,
    pub title: String,
    pub state: State,
    pub description: String,
    /// None if not on the team's own board.
    pub tools_project: Option<ToolsProject>,
    /// None if not on the roadmap board.
    pub roadmap_project: Option<RoadmapProject>,
}

impl View for ProjectIssue {
    type V = ProjectIssueV;

    open spec fn view(&self) -> ProjectIssueV {
        ProjectIssueV {
            id: self.id@,
            title: self.title@,
            state: self.state,
            description: self.description@,
            tools_project: match self.tools_project {
                Some(t) => Some(t@),
                None => None,
            },
            roadmap_project: match self.roadmap_project {
                Some(r) => Some(r@),
                None => None,
            },
        }
    }
}

impl DeepView for ProjectIssue {
    type V = ProjectIssueV;

    open spec fn deep_view(&self) -> ProjectIssueV {
        self.view()
    }
}

/// The tracking repository: its id and its issues.
#[derive(Debug)]
pub struct ProjectRepo {
    pub id: String,
    pub issues: Vec<ProjectIssue>,
}

impl View for ProjectRepo {
    type V = ProjectRepoV;

    open spec fn view(&self) -> ProjectRepoV {
        ProjectRepoV { id: self.id@, issues: self.issues.deep_view() }
    }
}

} // verus!
