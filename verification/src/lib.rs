//! Reconciliation engine for keeping project boards in sync with repository
//! milestones, issues and pull requests.
//!
//! The decision logic lives here and is verified: matching milestones to
//! tracking issues, resolving single-select field options, mapping due dates
//! to quarter columns, planning the create/update/remove operations for the
//! milestone boards, and diffing id sets against board columns. The network
//! transport that carries out those operations lives outside the library.

pub mod assigned_issues;
pub mod closed_things;
pub mod common;
pub mod deadline;
pub mod fields;
pub mod milestones;
pub mod project_details;
pub mod project_items;
pub mod project_repo;
pub mod sync_milestones;
pub mod team_prs;
pub mod text;
pub mod utils;
pub mod variables;

use vstd::prelude::*;

verus! {

} // verus!
