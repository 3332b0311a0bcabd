//! Selecting the assigned issues that belong on the board: every open
//! assigned issue except those living in the tracking repository itself.

use vstd::prelude::*;

verus! {

/// A search hit: an issue id and the name of the repository holding it.
#[derive(Debug)]
pub struct AssignedIssue {
    pub id: String,
    pub repo_name: String,
}

/// Mathematical model of a search hit.
pub ghost struct AssignedIssueV {
    pub id: Seq<char>,
    pub repo_name: Seq<char>,
}

impl View for AssignedIssue {
    type V = AssignedIssueV;

    open spec fn view(&self) -> AssignedIssueV {
        AssignedIssueV { id: self.id@, repo_name: self.repo_name@ }
    }
}

impl DeepView for AssignedIssue {
    type V = AssignedIssueV;

    open spec fn deep_view(&self) -> AssignedIssueV {
        self.view()
    }
}

/// The ids of the hits outside the named repository, in order.
pub open spec fn outside_repo_ids(hits: Seq<AssignedIssueV>, local_repo: Seq<char>) -> Seq<
    Seq<char>,
> {
    hits.filter(|h: AssignedIssueV| h.repo_name != local_repo).map_values(
        |h: AssignedIssueV| h.id,
    )
}

proof fn lemma_outside_take_step(hits: Seq<AssignedIssueV>, k: int, local_repo: Seq<char>)
    requires
        0 <= k < hits.len(),
    ensures
        hits[k].repo_name != local_repo ==> outside_repo_ids(hits.take(k + 1), local_repo)
            =~= outside_repo_ids(hits.take(k), local_repo).push(hits[k].id),
        hits[k].repo_name == local_repo ==> outside_repo_ids(hits.take(k + 1), local_repo)
            =~= outside_repo_ids(hits.take(k), local_repo),
{
    reveal(Seq::filter);
    assert(hits.take(k + 1).drop_last() =~= hits.take(k));
    assert(hits.take(k + 1).last() == hits[k]);
}

/// The ids of the assigned issues that are not in the tracking repository,
/// in order: those are synced onto the board.
pub fn assigned_issue_ids(hits: &Vec<AssignedIssue>, local_issue_repo_name: &str) -> (r: Vec<
    String,
>)
    ensures
        r.deep_view() =~= outside_repo_ids(hits.deep_view(), local_issue_repo_name@),
{
    let mut r: Vec<String> = Vec::new();
    let mut k: usize = 0;
    while k < hits.len()
        invariant
            k <= hits@.len(),
            r.deep_view() =~= outside_repo_ids(
                hits.deep_view().take(k as int),
                local_issue_repo_name@,
            ),
        decreases hits@.len() - k,
    {
        let ghost pre = r.deep_view();
        proof {
            lemma_outside_take_step(hits.deep_view(), k as int, local_issue_repo_name@);
        }
        if !crate::text::str_eq(hits[k].repo_name.as_str(), local_issue_repo_name) {
            r.push(hits[k].id.clone());
            proof {
                assert(r.deep_view() =~= pre.push(hits.deep_view()[k as int].id));
            }
        }
        k = k + 1;
    }
    proof {
        assert(hits.deep_view().take(hits.deep_view().len() as int) =~= hits.deep_view());
    }
    r
}

} // verus!
