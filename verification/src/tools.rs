//! The decisions of the review tools that the server exposes: which review
//! a request may use, how its parameters default, and how listed symbols are
//! filtered. The tools' I/O and serialisation happen outside this module.

use vstd::prelude::*;

use crate::model::SymbolKind;
use crate::review::complexity::ComplexityDelta;
use crate::review::diff::ReviewDiff;
use crate::review::impact::{clamp_depth, DEPTH_LIMIT};
use crate::review::{ReviewStatus, SymbolChange, SymbolDiffEntry};
use crate::text::same_text;

verus! {

/// Why a request could not be served, by the kind of answer it gets.
#[derive(Debug)]
pub enum ToolError {
    BadRequest(String),
    NotFound(String),
    Gone(String),
    Internal(String),
}

/// A review known to the server: its id and its status.
#[derive(Debug)]
pub struct ReviewSlot {
    pub id: String,
    pub status: ReviewStatus,
}

/// The name under which a status is reported.
pub open spec fn status_name_spec(s: ReviewStatus) -> Seq<char> {
    match s {
        ReviewStatus::Indexing => "indexing"@,
        ReviewStatus::Computing => "computing"@,
        ReviewStatus::Updating => "updating"@,
        ReviewStatus::Ready => "ready"@,
        ReviewStatus::Error(_) => "error"@,
    }
}

/// The name under which a status is reported.
pub fn status_name(s: &ReviewStatus) -> (r: String)
    ensures
        r@ == status_name_spec(*s),
{
    match s {
        ReviewStatus::Indexing => "indexing".to_string(),
        ReviewStatus::Computing => "computing".to_string(),
        ReviewStatus::Updating => "updating".to_string(),
        ReviewStatus::Ready => "ready".to_string(),
        ReviewStatus::Error(_) => "error".to_string(),
    }
}

/// A review can answer diff queries once ready, and also while an
/// incremental update runs (the previous diff stays usable).
pub open spec fn is_queryable(s: ReviewStatus) -> bool {
    s is Ready || s is Updating
}

/// What a request on a review in status `s` is answered: nothing in the
/// way when it is queryable; "not ready" while it indexes or computes; the
/// review's own error message when it failed.
pub open spec fn status_gate(s: ReviewStatus, r: Result<(), ToolError>) -> bool {
    match s {
        ReviewStatus::Ready | ReviewStatus::Updating => r is Ok,
        ReviewStatus::Indexing => r matches Err(ToolError::BadRequest(m)) && m@
            == "Review is not ready yet (status: indexing). Call get_review to check status."@,
        ReviewStatus::Computing => r matches Err(ToolError::BadRequest(m)) && m@
            == "Review is not ready yet (status: computing). Call get_review to check status."@,
        ReviewStatus::Error(msg) => r matches Err(ToolError::Internal(m)) && m@ == msg@,
    }
}

/// Whether a review in status `s` may be queried.
pub fn check_review_status(s: &ReviewStatus) -> (r: Result<(), ToolError>)
    ensures
        status_gate(*s, r),
        r is Ok <==> is_queryable(*s),
{
    match s {
        ReviewStatus::Ready | ReviewStatus::Updating => Ok(()),
        ReviewStatus::Indexing => Err(
            ToolError::BadRequest(
                "Review is not ready yet (status: indexing). Call get_review to check status.".to_string(),
            ),
        ),
        ReviewStatus::Computing => Err(
            ToolError::BadRequest(
                "Review is not ready yet (status: computing). Call get_review to check status.".to_string(),
            ),
        ),
        ReviewStatus::Error(msg) => Err(ToolError::Internal(msg.clone())),
    }
}

/// Index of the first review with id `id`, or -1.
pub open spec fn review_index(rs: Seq<ReviewSlot>, id: Seq<char>) -> int
    decreases rs.len(),
{
    if rs.len() == 0 {
        -1
    } else if rs[0].id@ == id {
        0
    } else {
        let r = review_index(rs.drop_first(), id);
        if r < 0 {
            -1
        } else {
            r + 1
        }
    }
}

pub proof fn lemma_review_index(rs: Seq<ReviewSlot>, id: Seq<char>)
    ensures
        -1 <= review_index(rs, id) < rs.len(),
        review_index(rs, id) >= 0 ==> rs[review_index(rs, id)].id@ == id,
        forall|j: int|
            0 <= j < rs.len() && (review_index(rs, id) < 0 || j < review_index(rs, id))
                ==> (#[trigger] rs[j]).id@ != id,
    decreases rs.len(),
{
    if rs.len() > 0 && rs[0].id@ != id {
        lemma_review_index(rs.drop_first(), id);
        assert forall|j: int|
            0 <= j < rs.len() && (review_index(rs, id) < 0 || j < review_index(rs, id))
                implies (#[trigger] rs[j]).id@ != id by {
            if j > 0 {
                assert(rs[j] == rs.drop_first()[j - 1]);
            }
        }
    }
}

/// Index of the review with id `id`.
pub fn find_review(reviews: &[ReviewSlot], id: &str) -> (r: Option<usize>)
    ensures
        match r {
            Some(k) => review_index(reviews@, id@) == k,
            None => review_index(reviews@, id@) < 0,
        },
{
    proof {
        lemma_review_index(reviews@, id@);
    }
    let mut i: usize = 0;
    while i < reviews.len()
        invariant
            0 <= i <= reviews@.len(),
            forall|j: int| 0 <= j < i ==> (#[trigger] reviews@[j]).id@ != id@,
        decreases reviews@.len() - i,
    {
        if same_text(reviews[i].id.as_str(), id) {
            proof {
                lemma_review_index(reviews@, id@);
            }
            return Some(i);
        }
        i += 1;
    }
    None
}

/// The review that the active-review tools use: the active one, if it
/// still exists and may be queried. With no active review the request is
/// bad; a deleted one is gone; otherwise the status decides.
pub fn active_review(active: &Option<String>, reviews: &[ReviewSlot]) -> (r: Result<usize, ToolError>)
    ensures
        match active {
            None => r matches Err(ToolError::BadRequest(m)) && m@
                == "No active review. Use create_review or set_active_review first."@,
            Some(id) => {
                let k = review_index(reviews@, id@);
                if k < 0 {
                    r matches Err(ToolError::Gone(m)) && m@ == "Active review was deleted."@
                } else {
                    &&& status_gate(reviews@[k].status, match r {
                        Ok(_) => Ok(()),
                        Err(e) => Err(e),
                    })
                    &&& r matches Ok(i) ==> i == k
                }
            },
        },
{
    let id = match active {
        Some(id) => id,
        None => {
            return Err(
                ToolError::BadRequest("No active review. Use create_review or set_active_review first.".to_string()),
            )
        },
    };
    proof {
        lemma_review_index(reviews@, id@);
    }
    let k = match find_review(reviews, id.as_str()) {
        Some(k) => k,
        None => return Err(ToolError::Gone("Active review was deleted.".to_string())),
    };
    match check_review_status(&reviews[k].status) {
        Ok(()) => Ok(k),
        Err(e) => Err(e),
    }
}

/// The caller-search depth of a request: 1 by default, clamped to
/// `1..=DEPTH_LIMIT`.
pub fn depth_param(depth: Option<usize>) -> (r: usize)
    ensures
        r == clamp_depth(
            match depth {
                Some(d) => d,
                None => 1,
            },
        ),
        1 <= r <= DEPTH_LIMIT,
{
    let d = match depth {
        Some(d) => d,
        None => 1,
    };
    if d < 1 {
        1
    } else if d > DEPTH_LIMIT {
        DEPTH_LIMIT
    } else {
        d
    }
}

/// Whether a request names the base branch of the active review.
pub fn uses_base_branch(branch: Option<&str>) -> (b: bool)
    ensures
        b == (branch matches Some(s) && s@ == "base"@),
{
    match branch {
        Some(s) => same_text(s, "base"),
        None => false,
    }
}

/// The change filter of the symbol listing: "added", "deleted" and
/// "modified" select that kind of change; any other value selects all.
pub open spec fn change_selects(filter: Seq<char>, c: SymbolChange) -> bool {
    if filter == "added"@ {
        c is Added
    } else if filter == "deleted"@ {
        c is Deleted
    } else if filter == "modified"@ {
        c is Modified
    } else {
        true
    }
}

/// Whether a changed symbol passes the listing's filters; an absent filter
/// passes everything.
pub open spec fn symbol_selected(
    e: SymbolDiffEntry,
    change: Option<Seq<char>>,
    file: Option<Seq<char>>,
    kind: Option<SymbolKind>,
) -> bool {
    &&& (change matches Some(c) ==> change_selects(c, e.change))
    &&& (file matches Some(f) ==> e.file@ == f)
    &&& (kind matches Some(k) ==> e.kind == k)
}

pub open spec fn opt_chars(o: Option<&str>) -> Option<Seq<char>> {
    match o {
        Some(s) => Some(s@),
        None => None,
    }
}

fn selects_change(filter: &str, c: &SymbolChange) -> (b: bool)
    ensures
        b == change_selects(filter@, *c),
{
    if same_text(filter, "added") {
        matches!(c, SymbolChange::Added)
    } else if same_text(filter, "deleted") {
        matches!(c, SymbolChange::Deleted)
    } else if same_text(filter, "modified") {
        matches!(c, SymbolChange::Modified { .. })
    } else {
        true
    }
}

/// Whether a changed symbol passes the listing's filters.
pub fn symbol_matches(e: &SymbolDiffEntry, change: Option<&str>, file: Option<&str>, kind: Option<SymbolKind>) -> (b: bool)
    ensures
        b == symbol_selected(*e, opt_chars(change), opt_chars(file), kind),
{
    if let Some(c) = change {
        if !selects_change(c, &e.change) {
            return false;
        }
    }
    if let Some(f) = file {
        if !same_text(e.file.as_str(), f) {
            return false;
        }
    }
    if let Some(k) = kind {
        if e.kind != k {
            return false;
        }
    }
    true
}

/// The changed symbols of the diff that pass the listing's filters, in diff
/// order.
pub fn filter_symbols(
    review_diff: &ReviewDiff,
    change: Option<&str>,
    file: Option<&str>,
    kind: Option<SymbolKind>,
) -> (r: Vec<SymbolDiffEntry>)
    ensures
        r@ == review_diff.symbol_diffs@.filter(
            |e: SymbolDiffEntry| symbol_selected(e, opt_chars(change), opt_chars(file), kind),
        ),
{
    let ghost ss = review_diff.symbol_diffs@;
    let mut r: Vec<SymbolDiffEntry> = Vec::new();
    let mut i: usize = 0;
    while i < review_diff.symbol_diffs.len()
        invariant
            0 <= i <= ss.len(),
            ss == review_diff.symbol_diffs@,
            r@ == ss.take(i as int).filter(
                |e: SymbolDiffEntry| symbol_selected(e, opt_chars(change), opt_chars(file), kind),
            ),
        decreases ss.len() - i,
    {
        proof {
            reveal_with_fuel(Seq::<_>::filter, 1);
            assert(ss.take(i + 1).drop_last() =~= ss.take(i as int));
        }
        let e = &review_diff.symbol_diffs[i];
        if symbol_matches(e, change, file, kind) {
            r.push(e.clone());
        }
        i += 1;
    }
    assert(ss.take(i as int) =~= ss);
    r
}

/// How many of the complexity deltas are regressions.
pub open spec fn regressions(ds: Seq<ComplexityDelta>) -> nat
    decreases ds.len(),
{
    if ds.len() == 0 {
        0
    } else {
        regressions(ds.drop_last()) + if ds.last().regression {
            1nat
        } else {
            0nat
        }
    }
}

/// How many of the complexity deltas are regressions.
pub fn regression_count(deltas: &[ComplexityDelta]) -> (r: usize)
    ensures
        r == regressions(deltas@),
{
    let mut n: usize = 0;
    let mut i: usize = 0;
    while i < deltas.len()
        invariant
            0 <= i <= deltas@.len(),
            n == regressions(deltas@.take(i as int)),
            n <= i,
        decreases deltas@.len() - i,
    {
        assert(deltas@.take(i + 1).drop_last() =~= deltas@.take(i as int));
        if deltas[i].regression {
            n += 1;
        }
        i += 1;
    }
    assert(deltas@.take(i as int) =~= deltas@);
    n
}

/// How long `create_review` waits for a review: this many polls, half a
/// second apart.
pub const CREATE_REVIEW_POLLS: usize = 240;

/// What one poll of a review being created finds.
#[derive(Debug)]
pub enum PollOutcome {
    /// Still indexing or computing: poll again.
    Pending,
    Ready,
    Failed(String),
}

/// What one poll of a review being created finds, and for a failure the
/// message reported.
pub fn poll_outcome(s: &ReviewStatus) -> (r: PollOutcome)
    ensures
        match s {
            ReviewStatus::Ready => r is Ready,
            ReviewStatus::Error(msg) => r matches PollOutcome::Failed(m) && m@ == "Review indexing failed: "@ + msg@,
            _ => r is Pending,
        },
{
    match s {
        ReviewStatus::Ready => PollOutcome::Ready,
        ReviewStatus::Error(msg) => {
            let mut m = "Review indexing failed: ".to_string();
            crate::text::append_str(&mut m, msg.as_str());
            PollOutcome::Failed(m)
        },
        _ => PollOutcome::Pending,
    }
}

/// The reply when the polls run out before the review is ready.
pub open spec fn timed_out_message() -> Seq<char> {
    "Review indexing timed out after 120 seconds. Call get_review to check status."@
}

/// The reply when the review disappears while it is being created.
pub open spec fn removed_message() -> Seq<char> {
    "Review was removed during creation"@
}

/// What `create_review` does after one of its polls.
#[derive(Debug)]
pub enum CreateStep {
    /// The review is still being prepared: pause and poll again.
    Wait,
    /// The review is ready: make it the session's active review and report it.
    Attach,
    /// Stop and report this error.
    Fail(String),
}

/// `step` is what follows the poll numbered `polls_done` (counting from 1)
/// that found `status`, `None` meaning that the review is gone.
pub open spec fn create_step_matches(polls_done: int, status: Option<ReviewStatus>, step: CreateStep) -> bool {
    match status {
        None => step matches CreateStep::Fail(m) && m@ == removed_message(),
        Some(ReviewStatus::Ready) => step is Attach,
        Some(ReviewStatus::Error(msg)) => step matches CreateStep::Fail(m) && m@ == "Review indexing failed: "@
            + msg@,
        Some(_) => if polls_done >= CREATE_REVIEW_POLLS {
            step matches CreateStep::Fail(m) && m@ == timed_out_message()
        } else {
            step is Wait
        },
    }
}

/// Decide what follows the poll numbered `polls_done` (counting from 1)
/// of a review being created, which found `status` (`None`: the review is
/// gone). A review that is still pending after the last poll times out.
pub fn create_review_step(polls_done: usize, status: Option<&ReviewStatus>) -> (r: CreateStep)
    ensures
        create_step_matches(polls_done as int, match status {
            Some(s) => Some(*s),
            None => None,
        }, r),
{
    match status {
        None => CreateStep::Fail("Review was removed during creation".to_string()),
        Some(s) => match poll_outcome(s) {
            PollOutcome::Ready => CreateStep::Attach,
            PollOutcome::Failed(m) => CreateStep::Fail(m),
            PollOutcome::Pending => {
                if polls_done >= CREATE_REVIEW_POLLS {
                    CreateStep::Fail(
                        "Review indexing timed out after 120 seconds. Call get_review to check status.".to_string(),
                    )
                } else {
                    CreateStep::Wait
                }
            },
        },
    }
}

/// `ss[k]` is what `poll(k)` returned, for each poll made, and every poll
/// before the last found the review still pending.
pub open spec fn polls_seen<F: Fn(usize) -> Option<ReviewStatus>>(poll: F, ss: Seq<Option<ReviewStatus>>) -> bool {
    &&& forall|k: int| 0 <= k < ss.len() ==> poll.ensures((k as usize,), #[trigger] ss[k])
    &&& forall|k: int| 0 <= k < ss.len() - 1 ==> create_step_matches(k + 1, #[trigger] ss[k], CreateStep::Wait)
}

/// Poll a review being created until a poll decides the outcome: `poll(k)`
/// pauses and makes the poll numbered `k + 1`. Returns how many polls were
/// made and the step that the last of them decided, which is never `Wait`;
/// every earlier poll found the review still pending.
pub fn await_review<F: Fn(usize) -> Option<ReviewStatus>>(poll: F) -> (r: (usize, CreateStep))
    requires
        forall|k: usize| #[trigger] poll.requires((k,)),
    ensures
        1 <= r.0 <= CREATE_REVIEW_POLLS,
        !(r.1 is Wait),
        exists|ss: Seq<Option<ReviewStatus>>|
            {
                &&& #[trigger] polls_seen(poll, ss)
                &&& ss.len() == r.0
                &&& create_step_matches(r.0 as int, ss[r.0 - 1], r.1)
            },
{
    let mut done: usize = 0;
    let ghost mut ss: Seq<Option<ReviewStatus>> = seq![];
    loop
        invariant
            done < CREATE_REVIEW_POLLS,
            forall|k: usize| #[trigger] poll.requires((k,)),
            ss.len() == done,
            polls_seen(poll, ss),
            done > 0 ==> create_step_matches(done as int, ss[done - 1], CreateStep::Wait),
        decreases CREATE_REVIEW_POLLS - done,
    {
        let s = poll(done);
        let ghost prev = ss;
        proof {
            ss = ss.push(s);
            assert forall|k: int| 0 <= k < ss.len() implies poll.ensures((k as usize,), #[trigger] ss[k]) by {
                if k < prev.len() {
                    assert(ss[k] == prev[k]);
                }
            }
            assert forall|k: int| 0 <= k < ss.len() - 1 implies create_step_matches(
                k + 1,
                #[trigger] ss[k],
                CreateStep::Wait,
            ) by {
                assert(ss[k] == prev[k]);
            }
        }
        done += 1;
        let step = create_review_step(done, s.as_ref());
        match step {
            CreateStep::Wait => {},
            _ => {
                assert(polls_seen(poll, ss));
                return (done, step);
            },
        }
    }
}

/// Law: whatever the polls find, creating a review makes at most
/// `CREATE_REVIEW_POLLS` polls, and a pending review on the last of them
/// times out.
pub proof fn law_create_review_times_out(status: ReviewStatus, step: CreateStep)
    requires
        !(status is Ready),
        !(status is Error),
        create_step_matches(CREATE_REVIEW_POLLS as int, Some(status), step),
    ensures
        step matches CreateStep::Fail(m) && m@ == timed_out_message(),
{
}

} // verus!
