//! Pull requests found for the team, and the draft/non-draft split.

use vstd::prelude::*;

verus! {

/// A pull request of interest to the team, with its draft flag.
#[derive(Debug)]
pub struct Issue {
    pub id: String,
    pub draft: bool,
}

/// The ids of the draft pull requests in `issues`, in order.
pub open spec fn draft_ids_spec(issues: Seq<Issue>) -> Seq<Seq<char>> {
    issues.filter(|i: Issue| i.draft).map_values(|i: Issue| i.id@)
}

/// The ids of the non-draft pull requests in `issues`, in order.
pub open spec fn non_draft_ids_spec(issues: Seq<Issue>) -> Seq<Seq<char>> {
    issues.filter(|i: Issue| !i.draft).map_values(|i: Issue| i.id@)
}

proof fn lemma_ids_take_step(issues: Seq<Issue>, k: int, pred: spec_fn(Issue) -> bool)
    requires
        0 <= k < issues.len(),
    ensures
        pred(issues[k]) ==> issues.take(k + 1).filter(pred).map_values(|i: Issue| i.id@) =~=
            issues.take(k).filter(pred).map_values(|i: Issue| i.id@).push(issues[k].id@),
        !pred(issues[k]) ==> issues.take(k + 1).filter(pred).map_values(|i: Issue| i.id@) =~=
            issues.take(k).filter(pred).map_values(|i: Issue| i.id@),
{
    reveal(Seq::filter);
    let post = issues.take(k + 1);
    assert(post.drop_last() =~= issues.take(k));
    assert(post.last() == issues[k]);
}

/// The ids of the pull requests still in draft, in order.
pub fn draft_pr_ids(issues: &Vec<Issue>) -> (r: Vec<String>)
    ensures
        r.deep_view() =~= draft_ids_spec(issues@),
{
    let mut r: Vec<String> = Vec::new();
    let mut k: usize = 0;
    while k < issues.len()
        invariant
            k <= issues@.len(),
            r.deep_view() =~= draft_ids_spec(issues@.take(k as int)),
        decreases issues@.len() - k,
    {
        let ghost pre = r.deep_view();
        proof {
            lemma_ids_take_step(issues@, k as int, |i: Issue| i.draft);
        }
        if issues[k].draft {
            r.push(issues[k].id.clone());
            proof {
                assert(r.deep_view() =~= pre.push(issues@[k as int].id@));
            }
        }
        k = k + 1;
    }
    proof {
        assert(issues@.take(issues@.len() as int) =~= issues@);
    }
    r
}

/// The ids of the pull requests out of draft (ready for review), in order.
pub fn non_draft_pr_ids(issues: &Vec<Issue>) -> (r: Vec<String>)
    ensures
        r.deep_view() =~= non_draft_ids_spec(issues@),
{
    let mut r: Vec<String> = Vec::new();
    let mut k: usize = 0;
    while k < issues.len()
        invariant
            k <= issues@.len(),
            r.deep_view() =~= non_draft_ids_spec(issues@.take(k as int)),
        decreases issues@.len() - k,
    {
        let ghost pre = r.deep_view();
        proof {
            lemma_ids_take_step(issues@, k as int, |i: Issue| !i.draft);
        }
        if !issues[k].draft {
            r.push(issues[k].id.clone());
            proof {
                assert(r.deep_view() =~= pre.push(issues@[k as int].id@));
            }
        }
        k = k + 1;
    }
    proof {
        assert(issues@.take(issues@.len() as int) =~= issues@);
    }
    r
}

/// What identifies a pull request in the search results: its id together
/// with its draft flag.
pub open spec fn pr_key(i: Issue) -> (Seq<char>, bool) {
    (i.id@, i.draft)
}

/// The keys of a result list, in order.
pub open spec fn pr_keys(issues: Seq<Issue>) -> Seq<(Seq<char>, bool)> {
    issues.map_values(|i: Issue| pr_key(i))
}

/// The first hit for each key, in input order: later repeats are dropped.
pub open spec fn dedupe_spec(issues: Seq<Issue>) -> Seq<Issue>
    decreases issues.len(),
{
    if issues.len() == 0 {
        issues
    } else {
        let rest = dedupe_spec(issues.drop_last());
        if pr_keys(issues.drop_last()).contains(pr_key(issues.last())) {
            rest
        } else {
            rest.push(issues.last())
        }
    }
}

/// Removes duplicate search hits: the result holds each key of the input
/// exactly once, keeping the first occurrence, in order.
pub fn dedupe_prs(issues: &Vec<Issue>) -> (r: Vec<Issue>)
    ensures
        r@ =~= dedupe_spec(issues@),
        forall|k1: int, k2: int|
            0 <= k1 < k2 < r@.len() ==> pr_key(r@[k1]) != pr_key(r@[k2]),
        forall|key: (Seq<char>, bool)|
            pr_keys(r@).contains(key) <==> pr_keys(issues@).contains(key),
{
    let mut r: Vec<Issue> = Vec::new();
    let mut k: usize = 0;
    while k < issues.len()
        invariant
            k <= issues@.len(),
            r@ =~= dedupe_spec(issues@.take(k as int)),
            forall|k1: int, k2: int|
                0 <= k1 < k2 < r@.len() ==> pr_key(r@[k1]) != pr_key(r@[k2]),
            forall|key: (Seq<char>, bool)|
                pr_keys(r@).contains(key) <==> pr_keys(issues@.take(k as int)).contains(key),
        decreases issues@.len() - k,
    {
        let mut seen = false;
        let mut j: usize = 0;
        while j < r.len()
            invariant
                j <= r@.len(),
                k < issues@.len(),
                seen <==> exists|i: int| 0 <= i < j && pr_key(r@[i]) == pr_key(issues@[k as int]),
            decreases r@.len() - j,
        {
            if crate::text::str_eq(r[j].id.as_str(), issues[k].id.as_str()) && r[j].draft
                == issues[k].draft {
                proof {
                    assert(pr_key(r@[j as int]) == pr_key(issues@[k as int]));
                }
                seen = true;
                j = r.len();
            } else {
                j = j + 1;
            }
        }
        let ghost pre = r@;
        if !seen {
            r.push(Issue { id: issues[k].id.clone(), draft: issues[k].draft });
            proof {
                assert(r@ =~= pre.push(r@[pre.len() as int]));
                assert(pr_key(r@[pre.len() as int]) == pr_key(issues@[k as int]));
            }
        }
        proof {
            let cur = issues@.take(k as int);
            let post = issues@.take(k + 1);
            assert(post.drop_last() =~= cur);
            assert(pr_keys(post)[k as int] == pr_key(issues@[k as int]));
            assert forall|key: (Seq<char>, bool)|
                pr_keys(r@).contains(key) <==> pr_keys(post).contains(key) by {
                if pr_keys(post).contains(key) {
                    let i = choose|i: int| 0 <= i < post.len() && pr_keys(post)[i] == key;
                    if i < k {
                        assert(pr_keys(cur)[i] == key);
                        assert(pr_keys(cur).contains(key));
                        assert(pr_keys(pre).contains(key));
                        let w = choose|w: int| 0 <= w < pre.len() && pr_keys(pre)[w] == key;
                        assert(pr_keys(r@)[w] == key);
                    } else {
                        assert(key == pr_key(issues@[k as int]));
                        if seen {
                            let w = choose|w: int|
                                0 <= w < pre.len() && pr_key(pre[w]) == pr_key(
                                    issues@[k as int],
                                );
                            assert(pr_keys(r@)[w] == key);
                        } else {
                            assert(pr_keys(r@)[pre.len() as int] == key);
                        }
                    }
                    assert(pr_keys(r@).contains(key));
                }
                if pr_keys(r@).contains(key) {
                    let i = choose|i: int| 0 <= i < r@.len() && pr_keys(r@)[i] == key;
                    if i < pre.len() {
                        assert(pr_keys(pre)[i] == key);
                        assert(pr_keys(pre).contains(key));
                        assert(pr_keys(cur).contains(key));
                        let w = choose|w: int| 0 <= w < cur.len() && pr_keys(cur)[w] == key;
                        assert(post[w] == cur[w]);
                        assert(pr_keys(post)[w] == key);
                    } else {
                        assert(key == pr_key(r@[pre.len() as int]));
                        assert(key == pr_key(issues@[k as int]));
                        assert(pr_keys(post)[k as int] == key);
                    }
                    assert(pr_keys(post).contains(key));
                }
            }
            // The queue is the first-occurrence sequence of the prefix.
            let keyk = pr_key(issues@[k as int]);
            assert(post.last() == issues@[k as int]);
            if seen {
                let w = choose|w: int| 0 <= w < pre.len() && pr_key(pre[w]) == keyk;
                assert(pr_keys(pre)[w] == keyk);
                assert(pr_keys(pre).contains(keyk));
                assert(pr_keys(cur).contains(keyk));
                assert(r@ =~= dedupe_spec(post));
            } else {
                if pr_keys(cur).contains(keyk) {
                    assert(pr_keys(pre).contains(keyk));
                    let w2 = choose|w2: int| 0 <= w2 < pre.len() && pr_keys(pre)[w2] == keyk;
                    assert(pr_key(pre[w2]) == keyk);
                    assert(false);
                }
                assert(r@[pre.len() as int] == issues@[k as int]);
                assert(r@ =~= dedupe_spec(post));
            }
        }
        k = k + 1;
    }
    proof {
        assert(issues@.take(issues@.len() as int) =~= issues@);
    }
    r
}

} // verus!
