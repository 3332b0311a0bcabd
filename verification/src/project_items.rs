//! Rows of a project board, and the paging decision used while listing them.

use vstd::prelude::*;

verus! {

/// Mathematical model of a board row.
pub ghost struct ProjectItemV {
    pub item_id: Seq<char>,
    pub content_id: Seq<char>,
    pub status_field_value_id: Option<Seq<char>>,
}

/// A row on a project board.
#[derive(Debug)]
pub struct ProjectItem {
    /// ID of the item itself.
    pub item_id: String,
    /// ID of the content (eg issue, PR) of this item.
    pub content_id: String,
    /// So we know which column the item is in.
    pub status_field_value_id: Option<String>,
}

impl View for ProjectItem {
    type V = ProjectItemV;

    open spec fn view(&self) -> ProjectItemV {
        ProjectItemV {
            item_id: self.item_id@,
            content_id: self.content_id@,
            status_field_value_id: crate::project_repo::opt_view(self.status_field_value_id),
        }
    }
}

impl DeepView for ProjectItem {
    type V = ProjectItemV;

    open spec fn deep_view(&self) -> ProjectItemV {
        self.view()
    }
}

impl Clone for ProjectItem {
    fn clone(&self) -> (r: Self)
        ensures
            r@ == self@,
    {
        ProjectItem {
            item_id: self.item_id.clone(),
            content_id: self.content_id.clone(),
            status_field_value_id: match &self.status_field_value_id {
                Some(s) => Some(s.clone()),
                None => None,
            },
        }
    }
}

/// Whether listing should fetch another page, and from which cursor.
///
/// Paging continues only while the response both reports more pages and
/// carries a cursor; a "has more" response without a cursor terminates the
/// loop rather than refetching the first page forever.
pub fn next_page_cursor(has_next_page: bool, end_cursor: Option<String>) -> (r: Option<String>)
    ensures
        r is Some <==> has_next_page && end_cursor is Some,
        r matches Some(c) ==> end_cursor matches Some(e) && c@ == e@,
{
    if has_next_page {
        end_cursor
    } else {
        None
    }
}

} // verus!
