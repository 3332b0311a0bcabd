//! Definitions of the two project boards and their single-select fields, as
//! fetched at the start of a run.

use vstd::prelude::*;

verus! {

/// Mathematical model of a single-select option: its id and name as
/// character sequences.
pub ghost struct FieldOptionV {
    pub id: Seq<char>,
    pub name: Seq<char>,
}

/// Mathematical model of a single-select field.
pub ghost struct FieldV {
    pub id: Seq<char>,
    pub options: Seq<FieldOptionV>,
}

/// Mathematical model of the team's own board.
pub ghost struct ToolsProjectV {
    pub id: Seq<char>,
    pub number: nat,
    pub status: FieldV,
}

/// Mathematical model of the roadmap board.
pub ghost struct RoadmapProjectV {
    pub id: Seq<char>,
    pub number: nat,
    pub status: FieldV,
    pub team: FieldV,
    pub deadline: FieldV,
}

/// Mathematical model of the pair of boards.
pub ghost struct ProjectsV {
    pub tools: ToolsProjectV,
    pub roadmap: RoadmapProjectV,
}

/// One choice of a single-select field.
#[derive(Debug)]
pub struct FieldOption {
    pub id: String,
    pub name: String,
}

impl View for FieldOption {
    type V = FieldOptionV;

    open spec fn view(&self) -> FieldOptionV {
        FieldOptionV { id: self.id@, name: self.name@ }
    }
}

impl DeepView for FieldOption {
    type V = FieldOptionV;

    open spec fn deep_view(&self) -> FieldOptionV {
        self.view()
    }
}

/// A single-select field definition: its id and its options in upstream
/// order.
#[derive(Debug)]
pub struct Field {
    pub id: String,
    pub options: Vec<FieldOption>,
}

impl View for Field {
    type V = FieldV;

    open spec fn view(&self) -> FieldV {
        FieldV { id: self.id@, options: self.options.deep_view() }
    }
}

/// The team's own board, which tracks milestones, assigned issues and pull
/// requests in status columns.
#[derive(Debug)]
pub struct ToolsProject {
    pub id: String,
    pub number: usize,
    pub status: Field,
}

impl View for ToolsProject {
    type V = ToolsProjectV;

    open spec fn view(&self) -> ToolsProjectV {
        ToolsProjectV { id: self.id@, number: self.number as nat, status: self.status@ }
    }
}

/// The public roadmap board, with status, team and deadline fields.
#[derive(Debug)]
pub struct RoadmapProject {
    pub id: String,
    pub number: usize,
    pub status: Field,
    pub team: Field,
    pub deadline: Field,
}

impl View for RoadmapProject {
    type V = RoadmapProjectV;

    open spec fn view(&self) -> RoadmapProjectV {
        RoadmapProjectV {
            id: self.id@,
            number: self.number as nat,
            status: self.status@,
            team: self.team@,
            deadline: self.deadline@,
        }
    }
}

/// The two boards a sync run works against.
#[derive(Debug)]
pub struct Projects {
    pub tools: ToolsProject,
    pub roadmap: RoadmapProject,
}

impl View for Projects {
    type V = ProjectsV;

    open spec fn view(&self) -> ProjectsV {
        ProjectsV { tools: self.tools@, roadmap: self.roadmap@ }
    }
}

} // verus!
