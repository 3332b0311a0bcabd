//! Recently closed issues and merged pull requests, as found by search.

use vstd::prelude::*;

verus! {

/// The ids of issues closed and pull requests merged recently.
#[derive(Debug)]
pub struct ClosedThings {
    pub closed_issues: Vec<String>,
    pub merged_prs: Vec<String>,
}

} // verus!
