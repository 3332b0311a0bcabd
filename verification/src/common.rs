//! The open/closed state shared by milestones and issues.

use vstd::prelude::*;

verus! {

/// Whether a milestone or issue is open or closed upstream.
#[derive(Copy, Clone, PartialEq, Eq, Structural, Debug)]
pub enum State {
    OPEN,
    CLOSED,
}

impl State {
    /// Textual form of the state, as shown in log output.
    pub fn display_string(&self) -> (r: String)
        ensures
            *self == State::OPEN ==> r@ == "State:OPEN"@,
            *self == State::CLOSED ==> r@ == "State:CLOSED"@,
    {
        match self {
            State::OPEN => String::from_str("State:OPEN"),
            State::CLOSED => String::from_str("State:CLOSED"),
        }
    }
}

} // verus!
