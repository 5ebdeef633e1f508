//! Matching pull requests to tasks, and the already-graded check.
//!
//! The application fetches the raw pull-request pages and comment pages
//! from the code-hosting API; the decisions — which pull requests are
//! candidates for a task, and whether one was graded before — are made
//! here, on plain values.

use vstd::prelude::*;
use crate::pull_request::PrInfo;
use crate::text::{contains_text, text_contains};

verus! {

/// A pull request is a candidate for a task exactly when its
/// source-branch name contains the task's id as a substring. The match
/// is deliberately unanchored: an id that is a substring of another
/// id's branch names will match those too.
pub open spec fn is_candidate(pr: PrInfo, task_id: Seq<char>) -> bool {
    text_contains(pr.branch@, task_id)
}

/// The candidates for a task, in the order the pull requests were
/// listed: those whose branch name contains the id, and no others.
pub open spec fn candidates(prs: Seq<PrInfo>, task_id: Seq<char>) -> Seq<PrInfo>
    decreases prs.len(),
{
    if prs.len() == 0 {
        Seq::empty()
    } else {
        let rest = candidates(prs.drop_first(), task_id);
        if is_candidate(prs.first(), task_id) {
            seq![prs.first()] + rest
        } else {
            rest
        }
    }
}

/// Retain, of all listed pull requests, those related to the task:
/// the ones whose source-branch name contains `task_id`.
pub fn get_prs_for_task(prs: Vec<PrInfo>, task_id: &str) -> (r: Vec<PrInfo>)
    ensures
        r@ == candidates(prs@, task_id@),
{
    let mut rem = prs;
    let mut out: Vec<PrInfo> = Vec::new();
    let ghost all = rem@;
    while rem.len() > 0
        invariant
            out@ + candidates(rem@, task_id@) == candidates(all, task_id@),
        decreases rem@.len(),
    {
        let ghost pre = rem@;
        let ghost out_pre = out@;
        let p = rem.remove(0);
        proof {
            assert(pre.drop_first() =~= rem@);
            assert(p == pre.first());
        }
        if contains_text(p.branch.as_str(), task_id) {
            out.push(p);
            proof {
                assert(out@ + candidates(rem@, task_id@) =~= out_pre + candidates(
                    pre,
                    task_id@,
                ));
            }
        }
    }
    proof {
        assert(candidates(rem@, task_id@) =~= Seq::<PrInfo>::empty());
        assert(out@ =~= out@ + candidates(rem@, task_id@));
    }
    out
}

/// No false candidates: every pull request the matcher returns has the
/// task's id inside its branch name, so one whose branch name does not
/// contain the id is never returned for that task.
pub proof fn lemma_candidates_match(prs: Seq<PrInfo>, task_id: Seq<char>, k: int)
    requires
        0 <= k < candidates(prs, task_id).len(),
    ensures
        text_contains(candidates(prs, task_id)[k].branch@, task_id),
    decreases prs.len(),
{
    if prs.len() > 0 {
        if is_candidate(prs.first(), task_id) {
            if k > 0 {
                lemma_candidates_match(prs.drop_first(), task_id, k - 1);
            }
        } else {
            lemma_candidates_match(prs.drop_first(), task_id, k);
        }
    }
}

/// Some comment in the history contains the given text.
pub open spec fn spec_has_comment_with(comments: Seq<String>, text: Seq<char>) -> bool {
    exists|k: int| 0 <= k < comments.len() && text_contains(comments[k]@, text)
}

/// Does any of the pull request's comments contain `search_text`?
///
/// The comment history is the sole record of past grading: there is no
/// other ledger.
pub fn pr_has_comment_with_text(comments: &Vec<String>, search_text: &str) -> (b: bool)
    ensures
        b == spec_has_comment_with(comments@, search_text@),
{
    let mut k: usize = 0;
    while k < comments.len()
        invariant
            k <= comments@.len(),
            forall|j: int| 0 <= j < k ==> !text_contains(comments@[j]@, search_text@),
        decreases comments@.len() - k,
    {
        if contains_text(comments[k].as_str(), search_text) {
            proof {
                assert(spec_has_comment_with(comments@, search_text@));
            }
            return true;
        }
        k = k + 1;
    }
    false
}

/// Idempotency: once any comment on a pull request contains the marker
/// text, the already-graded check reports so, and the orchestration
/// skips that pull request instead of grading it a second time.
pub proof fn lemma_marked_pr_is_detected(comments: Seq<String>, marker: Seq<char>, k: int)
    requires
        0 <= k < comments.len(),
        text_contains(comments[k]@, marker),
    ensures
        spec_has_comment_with(comments, marker),
{
    assert(spec_has_comment_with(comments, marker));
}

/// The marker text whose presence in any comment means the pull
/// request has already been graded. Every posted result contains it.
pub fn score_marker() -> (r: &'static str)
    ensures
        r@ == "Score"@,
{
    "Score"
}

} // verus!
