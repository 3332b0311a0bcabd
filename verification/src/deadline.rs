//! The deadline mapper: a milestone due date maps to a quarter-named board
//! column (`"Q1 2023"` .. `"Q4 2023"`), which is then resolved against the
//! roadmap board's deadline field.

use vstd::prelude::*;
use crate::fields::{resolve_option_id, resolved_id, FieldError};
use crate::milestones::DueDate;
use crate::project_details::RoadmapProject;
use crate::text::digits_of;

verus! {

/// The quarter of a month: months 1-3 are quarter 1, 4-6 quarter 2,
/// 7-9 quarter 3, 10-12 quarter 4.
pub open spec fn quarter_of(month: u8) -> int {
    if month <= 3 {
        1
    } else if month <= 6 {
        2
    } else if month <= 9 {
        3
    } else {
        4
    }
}

/// The column label for a due date: `"Q<quarter> <year>"`.
pub open spec fn quarter_label_view(d: DueDate) -> Seq<char> {
    seq!['Q'] + digits_of(quarter_of(d.month) as nat) + seq![' '] + digits_of(d.year as nat)
}

/// The quarter label for `d`, as `quarter_label_view` describes.
pub fn quarter_label(d: &DueDate) -> (r: String)
    requires
        d.wf(),
    ensures
        r@ =~= quarter_label_view(*d),
{
    let mut s = if d.month <= 3 {
        proof {
            reveal_strlit("Q1 ");
        }
        String::from_str("Q1 ")
    } else if d.month <= 6 {
        proof {
            reveal_strlit("Q2 ");
        }
        String::from_str("Q2 ")
    } else if d.month <= 9 {
        proof {
            reveal_strlit("Q3 ");
        }
        String::from_str("Q3 ")
    } else {
        proof {
            reveal_strlit("Q4 ");
        }
        String::from_str("Q4 ")
    };
    let year = usize_of_year(d.year);
    let digits = crate::text::usize_to_string(year);
    s.append(digits.as_str());
    s
}

/// The year as an unsigned count, defined for the non-negative years a
/// valid due date carries.
fn usize_of_year(year: i32) -> (r: usize)
    requires
        0 <= year,
    ensures
        r == year,
{
    year as usize
}

/// The deadline column for a due date, if the roadmap board has one whose
/// name starts with the date's quarter label. `None` is a soft failure: the
/// caller clears the deadline field, or removes the item when the milestone
/// is closed.
pub fn try_get_matching_roadmap_deadline(details: &RoadmapProject, date: &DueDate) -> (r: Option<
    String,
>)
    requires
        date.wf(),
    ensures
        r is Some <==> resolved_id(details@.deadline, quarter_label_view(*date)) is Some,
        r matches Some(id) ==> resolved_id(details@.deadline, quarter_label_view(*date)) == Some(
            id@,
        ),
{
    let label = quarter_label(date);
    match resolve_option_id(&details.deadline, label.as_str()) {
        Ok(id) => Some(id),
        Err(_) => None,
    }
}

} // verus!
