//! The set reconciler: diffing a list of wanted content ids against the
//! items currently occupying one status column of a board, and planning the
//! additions and removals that bring the column into line.

use vstd::prelude::*;
use crate::fields::{resolve_option_id, resolved_id, FieldError};
use crate::project_details::Field;
use crate::project_items::{ProjectItem, ProjectItemV};
use crate::text::str_eq;

verus! {

/// An item sits in the column identified by `status_id`.
pub open spec fn in_column(it: ProjectItemV, status_id: Seq<char>) -> bool {
    it.status_field_value_id == Some(status_id)
}

/// The items of `items` sitting in the column, in order.
pub open spec fn column_items(items: Seq<ProjectItemV>, status_id: Seq<char>) -> Seq<
    ProjectItemV,
> {
    items.filter(|it: ProjectItemV| in_column(it, status_id))
}

/// The content ids of a row list, in order.
pub open spec fn content_ids(items: Seq<ProjectItemV>) -> Seq<Seq<char>> {
    items.map_values(|it: ProjectItemV| it.content_id)
}

/// The wanted ids that no current item carries, with repeats kept.
pub open spec fn absent_ids(wanted: Seq<Seq<char>>, current: Seq<ProjectItemV>) -> Seq<
    Seq<char>,
> {
    wanted.filter(|id: Seq<char>| !content_ids(current).contains(id))
}

/// The first occurrence of each id, in order: later repeats are dropped.
pub open spec fn first_occurrences(ids: Seq<Seq<char>>) -> Seq<Seq<char>>
    decreases ids.len(),
{
    if ids.len() == 0 {
        ids
    } else {
        let rest = first_occurrences(ids.drop_last());
        if ids.drop_last().contains(ids.last()) {
            rest
        } else {
            rest.push(ids.last())
        }
    }
}

/// Dropping later repeats keeps membership unchanged: the first occurrences
/// hold exactly the ids of the input.
pub proof fn lemma_first_occurrences_membership(ids: Seq<Seq<char>>)
    ensures
        forall|id: Seq<char>| first_occurrences(ids).contains(id) <==> ids.contains(id),
    decreases ids.len(),
{
    if ids.len() == 0 {
    } else {
        let rest = ids.drop_last();
        lemma_first_occurrences_membership(rest);
        let fr = first_occurrences(rest);
        let fo = first_occurrences(ids);
        assert forall|id: Seq<char>| fo.contains(id) implies ids.contains(id) by {
            let i = choose|i: int| 0 <= i < fo.len() && fo[i] == id;
            if rest.contains(ids.last()) || i < fr.len() {
                assert(fr[i] == id);
                assert(fr.contains(id));
                assert(rest.contains(id));
                let j = choose|j: int| 0 <= j < rest.len() && rest[j] == id;
                assert(ids[j] == id);
            } else {
                assert(id == ids.last());
                assert(ids[ids.len() - 1] == id);
            }
        }
        assert forall|id: Seq<char>| ids.contains(id) implies fo.contains(id) by {
            let i = choose|i: int| 0 <= i < ids.len() && ids[i] == id;
            if i < ids.len() - 1 {
                assert(rest[i] == id);
                assert(rest.contains(id));
                assert(fr.contains(id));
                let j = choose|j: int| 0 <= j < fr.len() && fr[j] == id;
                assert(fo[j] == id);
            } else {
                if rest.contains(ids.last()) {
                    assert(fr.contains(id));
                    let j = choose|j: int| 0 <= j < fr.len() && fr[j] == id;
                    assert(fo[j] == id);
                } else {
                    assert(fo[fo.len() - 1] == id);
                }
            }
        }
    }
}

/// The first occurrences hold no id twice.
pub proof fn lemma_first_occurrences_distinct(ids: Seq<Seq<char>>)
    ensures
        forall|k1: int, k2: int|
            0 <= k1 < k2 < first_occurrences(ids).len() ==> first_occurrences(ids)[k1]
                != first_occurrences(ids)[k2],
    decreases ids.len(),
{
    if ids.len() == 0 {
    } else {
        let rest = ids.drop_last();
        lemma_first_occurrences_distinct(rest);
        lemma_first_occurrences_membership(rest);
        let fr = first_occurrences(rest);
        let fo = first_occurrences(ids);
        if !rest.contains(ids.last()) {
            assert forall|k1: int, k2: int|
                0 <= k1 < k2 < fo.len() implies fo[k1] != fo[k2] by {
                if k2 == fo.len() - 1 {
                    assert(fr[k1] == fo[k1]);
                    assert(fr.contains(fr[k1]));
                    assert(rest.contains(fo[k1]));
                    assert(fo[k2] == ids.last());
                } else {
                    assert(fo[k1] == fr[k1] && fo[k2] == fr[k2]);
                }
            }
        }
    }
}

/// The wanted ids that no current item carries: these are added, each
/// exactly once, in order of first appearance — repeats in `wanted` are a
/// matter of presence, not count.
pub open spec fn to_add_spec(wanted: Seq<Seq<char>>, current: Seq<ProjectItemV>) -> Seq<
    Seq<char>,
> {
    first_occurrences(absent_ids(wanted, current))
}

/// The current items whose content id is not wanted: these are removed.
pub open spec fn removed_items(wanted: Seq<Seq<char>>, current: Seq<ProjectItemV>) -> Seq<
    ProjectItemV,
> {
    current.filter(|it: ProjectItemV| !wanted.contains(it.content_id))
}

/// The item ids of the removed rows, in order.
pub open spec fn to_remove_spec(wanted: Seq<Seq<char>>, current: Seq<ProjectItemV>) -> Seq<
    Seq<char>,
> {
    removed_items(wanted, current).map_values(|it: ProjectItemV| it.item_id)
}

proof fn lemma_column_take_step(items: Seq<ProjectItemV>, k: int, status_id: Seq<char>)
    requires
        0 <= k < items.len(),
    ensures
        in_column(items[k], status_id) ==> column_items(items.take(k + 1), status_id)
            =~= column_items(items.take(k), status_id).push(items[k]),
        !in_column(items[k], status_id) ==> column_items(items.take(k + 1), status_id)
            =~= column_items(items.take(k), status_id),
{
    reveal(Seq::filter);
    assert(items.take(k + 1).drop_last() =~= items.take(k));
    assert(items.take(k + 1).last() == items[k]);
}

proof fn lemma_to_add_take_step(wanted: Seq<Seq<char>>, k: int, current: Seq<ProjectItemV>)
    requires
        0 <= k < wanted.len(),
    ensures
        ({
            let prev = to_add_spec(wanted.take(k), current);
            &&& (!content_ids(current).contains(wanted[k]) && !prev.contains(wanted[k]))
                ==> to_add_spec(wanted.take(k + 1), current) =~= prev.push(wanted[k])
            &&& (content_ids(current).contains(wanted[k]) || prev.contains(wanted[k]))
                ==> to_add_spec(wanted.take(k + 1), current) =~= prev
        }),
{
    reveal(Seq::filter);
    assert(wanted.take(k + 1).drop_last() =~= wanted.take(k));
    assert(wanted.take(k + 1).last() == wanted[k]);
    let f_pw = absent_ids(wanted.take(k), current);
    let f_po = absent_ids(wanted.take(k + 1), current);
    lemma_first_occurrences_membership(f_pw);
    if !content_ids(current).contains(wanted[k]) {
        assert(f_po =~= f_pw.push(wanted[k]));
        assert(f_po.drop_last() =~= f_pw);
        assert(f_po.last() == wanted[k]);
        assert(first_occurrences(f_po) == if f_pw.contains(wanted[k]) {
            first_occurrences(f_pw)
        } else {
            first_occurrences(f_pw).push(wanted[k])
        });
    } else {
        assert(f_po =~= f_pw);
    }
}

proof fn lemma_to_remove_take_step(wanted: Seq<Seq<char>>, k: int, current: Seq<ProjectItemV>)
    requires
        0 <= k < current.len(),
    ensures
        !wanted.contains(current[k].content_id) ==> to_remove_spec(wanted, current.take(k + 1))
            =~= to_remove_spec(wanted, current.take(k)).push(current[k].item_id),
        wanted.contains(current[k].content_id) ==> to_remove_spec(wanted, current.take(k + 1))
            =~= to_remove_spec(wanted, current.take(k)),
{
    reveal(Seq::filter);
    assert(current.take(k + 1).drop_last() =~= current.take(k));
    assert(current.take(k + 1).last() == current[k]);
}

/// What a run of the set reconciler does to one board column: set the status
/// of each added content id to `status_option_id`, and delete each removed
/// item.
pub struct SyncIssuesPlan {
    /// The resolved id of the status column being reconciled.
    pub status_option_id: String,
    /// Content ids to add to the board, each exactly once even where the
    /// wanted list repeats an id (each is added, then has its status field
    /// set to `status_option_id`).
    pub to_add: Vec<String>,
    /// Item ids to delete from the board.
    pub to_remove: Vec<String>,
}

/// The diff the set reconciler computes for the column named
/// `status_name`: wanted ids missing from the column are added, once each
/// — presence counts, not multiplicity — and items in the column whose
/// content is not wanted are removed.
///
/// Fails with `FieldNotFound` exactly when no option of `status_field`
/// matches `status_name`.
pub fn plan_issue_sync(
    issue_ids: &Vec<String>,
    items: &Vec<ProjectItem>,
    status_field: &Field,
    status_name: &str,
) -> (r: Result<SyncIssuesPlan, FieldError>)
    ensures
        r is Ok <==> resolved_id(status_field@, status_name@) is Some,
        r matches Ok(plan) ==> {
            let status_id = resolved_id(status_field@, status_name@).unwrap();
            let current = column_items(items.deep_view(), status_id);
            &&& plan.status_option_id@ == status_id
            &&& plan.to_add.deep_view() =~= to_add_spec(issue_ids.deep_view(), current)
            &&& forall|k1: int, k2: int|
                0 <= k1 < k2 < plan.to_add.deep_view().len() ==> plan.to_add.deep_view()[k1]
                    != plan.to_add.deep_view()[k2]
            &&& plan.to_remove.deep_view() =~= to_remove_spec(issue_ids.deep_view(), current)
        },
        r matches Err(e) ==> e == FieldError::FieldNotFound,
{
    let status_option_id = match resolve_option_id(status_field, status_name) {
        Ok(id) => id,
        Err(e) => {
            return Err(e);
        },
    };
    let ghost status_id = status_option_id@;

    // Items currently occupying the column.
    let mut current: Vec<ProjectItem> = Vec::new();
    let mut k: usize = 0;
    while k < items.len()
        invariant
            k <= items@.len(),
            status_id == status_option_id@,
            current.deep_view() =~= column_items(items.deep_view().take(k as int), status_id),
        decreases items@.len() - k,
    {
        let ghost pre = current.deep_view();
        proof {
            lemma_column_take_step(items.deep_view(), k as int, status_id);
        }
        let it = &items[k];
        let keep = opt_str_eq(&it.status_field_value_id, &status_option_id);
        proof {
            assert(items.deep_view()[k as int] == items@[k as int]@);
            assert(keep == in_column(items.deep_view()[k as int], status_id));
        }
        if keep {
            current.push(it.clone());
            proof {
                assert(current.deep_view() =~= pre.push(items.deep_view()[k as int]));
            }
        }
        k = k + 1;
    }
    proof {
        assert(items.deep_view().take(items.deep_view().len() as int) =~= items.deep_view());
    }

    // Wanted ids that are not on the board yet.
    let mut to_add: Vec<String> = Vec::new();
    let mut k: usize = 0;
    while k < issue_ids.len()
        invariant
            k <= issue_ids@.len(),
            current.deep_view() == column_items(items.deep_view(), status_id),
            to_add.deep_view() =~= to_add_spec(issue_ids.deep_view().take(k as int),
                current.deep_view()),
        decreases issue_ids@.len() - k,
    {
        let ghost pre = to_add.deep_view();
        proof {
            lemma_to_add_take_step(issue_ids.deep_view(), k as int, current.deep_view());
        }
        let present = contains_content_id(&current, &issue_ids[k]);
        let queued = contains_id(&to_add, &issue_ids[k]);
        if !present && !queued {
            to_add.push(issue_ids[k].clone());
            proof {
                assert(to_add.deep_view() =~= pre.push(issue_ids.deep_view()[k as int]));
            }
        }
        k = k + 1;
    }
    proof {
        assert(issue_ids.deep_view().take(issue_ids.deep_view().len() as int)
            =~= issue_ids.deep_view());
        lemma_first_occurrences_distinct(
            absent_ids(issue_ids.deep_view(), current.deep_view()),
        );
    }

    // Items on the board whose content is no longer wanted.
    let mut to_remove: Vec<String> = Vec::new();
    let mut k: usize = 0;
    while k < current.len()
        invariant
            k <= current@.len(),
            current.deep_view() == column_items(items.deep_view(), status_id),
            to_remove.deep_view() =~= to_remove_spec(issue_ids.deep_view(),
                current.deep_view().take(k as int)),
        decreases current@.len() - k,
    {
        let ghost pre = to_remove.deep_view();
        proof {
            lemma_to_remove_take_step(issue_ids.deep_view(), k as int, current.deep_view());
        }
        let wanted = contains_id(issue_ids, &current[k].content_id);
        if !wanted {
            to_remove.push(current[k].item_id.clone());
            proof {
                assert(to_remove.deep_view() =~= pre.push(
                    current.deep_view()[k as int].item_id,
                ));
            }
        }
        k = k + 1;
    }
    proof {
        assert(current.deep_view().take(current.deep_view().len() as int)
            =~= current.deep_view());
        // Removal filters over a prefix extend to the whole column list.
        assert(to_remove.deep_view() =~= to_remove_spec(issue_ids.deep_view(),
            current.deep_view()));
    }

    Ok(SyncIssuesPlan { status_option_id, to_add, to_remove })
}

/// The content ids of the removed rows, in order.
pub open spec fn removed_content_ids(wanted: Seq<Seq<char>>, current: Seq<ProjectItemV>) -> Seq<
    Seq<char>,
> {
    removed_items(wanted, current).map_values(|it: ProjectItemV| it.content_id)
}

/// Diff law: an id planned for addition is not on the board already.
pub proof fn theorem_to_add_disjoint_current(wanted: Seq<Seq<char>>, current: Seq<ProjectItemV>)
    ensures
        forall|id: Seq<char>|
            to_add_spec(wanted, current).contains(id) ==> !content_ids(current).contains(id),
{
    broadcast use vstd::seq_lib::group_filter_ensures;

    lemma_first_occurrences_membership(absent_ids(wanted, current));
    assert forall|id: Seq<char>|
        to_add_spec(wanted, current).contains(id) implies !content_ids(current).contains(id) by {
        let absent = absent_ids(wanted, current);
        assert(absent.contains(id));
        let i = choose|i: int| 0 <= i < absent.len() && absent[i] == id;
        assert(!content_ids(current).contains(absent[i]));
    }
}

/// Diff law: no id is planned for addition twice, whatever `wanted`
/// repeats — presence decides, not count.
pub proof fn theorem_to_add_no_duplicates(wanted: Seq<Seq<char>>, current: Seq<ProjectItemV>)
    ensures
        forall|k1: int, k2: int|
            0 <= k1 < k2 < to_add_spec(wanted, current).len() ==> to_add_spec(wanted, current)[k1]
                != to_add_spec(wanted, current)[k2],
{
    lemma_first_occurrences_distinct(absent_ids(wanted, current));
}

/// Diff law: the content of an item planned for removal is not wanted.
pub proof fn theorem_to_remove_disjoint_wanted(wanted: Seq<Seq<char>>, current: Seq<ProjectItemV>)
    ensures
        forall|id: Seq<char>|
            removed_content_ids(wanted, current).contains(id) ==> !wanted.contains(id),
{
    broadcast use vstd::seq_lib::group_filter_ensures;

    assert forall|id: Seq<char>|
        removed_content_ids(wanted, current).contains(id) implies !wanted.contains(id) by {
        let rem = removed_items(wanted, current);
        let ids = removed_content_ids(wanted, current);
        let i = choose|i: int| 0 <= i < ids.len() && ids[i] == id;
        assert(!wanted.contains(rem[i].content_id));
    }
}

/// Diff law: applying the diff settles the column. After adding the planned
/// content ids and removing the planned items, the set of content ids on the
/// board is exactly the set of wanted ids, so a second diff against the same
/// `wanted` plans nothing.
pub proof fn theorem_diff_settles(wanted: Seq<Seq<char>>, current: Seq<ProjectItemV>)
    ensures
        content_ids(current).to_set().union(to_add_spec(wanted, current).to_set()).difference(
            removed_content_ids(wanted, current).to_set(),
        ) =~= wanted.to_set(),
{
    broadcast use vstd::seq_lib::group_filter_ensures;
    broadcast use Seq::lemma_filter_contains_rev;

    lemma_first_occurrences_membership(absent_ids(wanted, current));
    let cur = content_ids(current).to_set();
    let add = to_add_spec(wanted, current).to_set();
    let rem = removed_content_ids(wanted, current).to_set();
    let after = cur.union(add).difference(rem);
    assert forall|id: Seq<char>| after.contains(id) implies wanted.to_set().contains(id) by {
        if add.contains(id) {
            let absent = absent_ids(wanted, current);
            assert(absent.contains(id));
            assert(wanted.contains(id));
        } else {
            // The id is on the board and was not removed; if it were not
            // wanted, every item carrying it would have been removed.
            assert(cur.contains(id) && !rem.contains(id));
            let i = choose|i: int| 0 <= i < current.len() && content_ids(current)[i] == id;
            if !wanted.contains(id) {
                let it = current[i];
                assert(removed_items(wanted, current).contains(it));
                let rems = removed_items(wanted, current);
                let j = choose|j: int| 0 <= j < rems.len() && rems[j] == it;
                assert(removed_content_ids(wanted, current)[j] == id);
                assert(rem.contains(id));
            }
        }
    }
    assert forall|id: Seq<char>| wanted.to_set().contains(id) implies after.contains(id) by {
        if !rem.contains(id) {
            if content_ids(current).contains(id) {
                assert(cur.contains(id));
            } else {
                let i = choose|i: int| 0 <= i < wanted.len() && wanted[i] == id;
                assert(absent_ids(wanted, current).contains(wanted[i]));
                assert(to_add_spec(wanted, current).contains(id));
                assert(add.contains(id));
            }
        } else {
            // A removed content id is never wanted.
            let ids = removed_content_ids(wanted, current);
            let i = choose|i: int| 0 <= i < ids.len() && ids[i] == id;
            let rems = removed_items(wanted, current);
            assert(!wanted.contains(rems[i].content_id));
        }
    }
}

/// Whether an optional id is present and equal to `b`.
pub fn opt_str_eq(a: &Option<String>, b: &String) -> (r: bool)
    ensures
        r == (crate::project_repo::opt_view(*a) == Some(b@)),
{
    match a {
        Some(s) => {
            let eq = str_eq(s.as_str(), b.as_str());
            proof {
                assert(crate::project_repo::opt_view(*a) == Some(s@));
                if s@ == b@ {
                    assert(crate::project_repo::opt_view(*a) == Some(b@));
                } else {
                    assert(Some::<Seq<char>>(s@) != Some::<Seq<char>>(b@));
                }
            }
            eq
        },
        None => false,
    }
}

/// Whether some item of `items` has content id `id`.
fn contains_content_id(items: &Vec<ProjectItem>, id: &String) -> (r: bool)
    ensures
        r == content_ids(items.deep_view()).contains(id@),
{
    let mut k: usize = 0;
    while k < items.len()
        invariant
            k <= items@.len(),
            forall|j: int| 0 <= j < k ==> items.deep_view()[j].content_id != id@,
        decreases items@.len() - k,
    {
        if str_eq(items[k].content_id.as_str(), id.as_str()) {
            proof {
                assert(content_ids(items.deep_view())[k as int] == id@);
            }
            return true;
        }
        k = k + 1;
    }
    proof {
        assert forall|j: int|
            0 <= j < content_ids(items.deep_view()).len() implies content_ids(items.deep_view())[j]
            != id@ by {
            assert(items.deep_view()[j].content_id != id@);
        }
    }
    false
}

/// Whether `ids` holds `id`.
fn contains_id(ids: &Vec<String>, id: &String) -> (r: bool)
    ensures
        r == ids.deep_view().contains(id@),
{
    let mut k: usize = 0;
    while k < ids.len()
        invariant
            k <= ids@.len(),
            forall|j: int| 0 <= j < k ==> ids.deep_view()[j] != id@,
        decreases ids@.len() - k,
    {
        if str_eq(ids[k].as_str(), id.as_str()) {
            proof {
                assert(ids.deep_view()[k as int] == id@);
            }
            return true;
        }
        k = k + 1;
    }
    false
}

} // verus!
