//! Milestones as read from an upstream repository.

use vstd::prelude::*;
use crate::common::State;

verus! {

/// A milestone's due date, reduced to the calendar fields the deadline
/// mapper reads: the year and the month (1 through 12).
#[derive(Debug, Clone, Copy, PartialEq, Eq, Structural)]
pub struct DueDate {
    pub year: i32,
    pub month: u8,
}

impl DueDate {
    /// A valid calendar position: a real month number and a non-negative
    /// year.
    pub open spec fn wf(&self) -> bool {
        1 <= self.month <= 12 && 0 <= self.year
    }
}

/// Mathematical model of a milestone.
pub ghost struct MilestoneV {
    pub number: nat,
    pub title: Seq<char>,
    pub state: State,
    pub due_on: Option<DueDate>,
    pub description: Seq<char>,
}

impl MilestoneV {
    /// The milestone's due date is valid when present.
    pub open spec fn wf(&self) -> bool {
        match self.due_on {
            Some(d) => d.wf(),
            None => true,
        }
    }
}

/// An upstream milestone, an immutable snapshot per sync run.
#[derive(Debug)]
pub struct Milestone {
    pub number: usize,
    pub title: String,
    pub state: State,
    pub due_on: Option<DueDate>,
    pub description: String,
}

impl View for Milestone {
    type V = MilestoneV;

    open spec fn view(&self) -> MilestoneV {
        MilestoneV {
            number: self.number as nat,
            title: self.title@,
            state: self.state,
            due_on: self.due_on,
            description: self.description@,
        }
    }
}

impl Milestone {
    /// The milestone's due date is valid when present.
    pub open spec fn wf(&self) -> bool {
        self@.wf()
    }
}

} // verus!
