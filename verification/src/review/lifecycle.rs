//! The status flow of a review: how a review being created settles once git
//! has reported its changed files, and what an update to a new head does
//! with the git diffs it needs. Running git and sharing the review between
//! requests happen outside this module.

use vstd::prelude::*;

use crate::git::FileDiff;
use crate::model::ProjectIndex;
use crate::text::{append_str, same_text};
use crate::tools::ToolError;

use super::cache::{key_file_part_spec, listed, ReviewCache};
use super::diff::{
    compute_incremental_diff, compute_review_diff, detect_moves_spec, diff_matches, file_views, git_views,
    incremental_files, incremental_symbols, processed_files, processed_symbols, sym_views, ReviewDiff,
};
use super::ReviewStatus;

verus! {

/// The status and diff of a review being created, once git has reported the
/// files changed between its refs (`Err` holding git's message where that
/// failed): ready with the full review diff, or failed with git's message
/// and no diff.
pub fn finish_review(
    base_project: &ProjectIndex,
    head_project: &ProjectIndex,
    git_diffs: Result<Vec<FileDiff>, String>,
) -> (r: (ReviewStatus, Option<ReviewDiff>))
    ensures
        match git_diffs {
            Err(m) => r.0 matches ReviewStatus::Error(e) && e@ == m@ && r.1 is None,
            Ok(ds) => {
                &&& r.0 is Ready
                &&& r.1 matches Some(d) && diff_matches(
                    d,
                    processed_files(git_views(ds@), *base_project, *head_project),
                    detect_moves_spec(
                        processed_symbols(git_views(ds@), *base_project, *head_project),
                        *base_project,
                        *head_project,
                    ),
                )
            },
        },
{
    match git_diffs {
        Err(m) => (ReviewStatus::Error(m), None),
        Ok(ds) => {
            let d = compute_review_diff(base_project, head_project, ds.as_slice());
            (ReviewStatus::Ready, Some(d))
        },
    }
}

/// What happens to a review being created, in the order it can happen.
#[derive(Debug)]
pub enum CreationEvent {
    /// Both snapshots have their symbols extracted.
    SymbolsExtracted,
    /// The review diff was computed.
    DiffComputed,
    /// Git could not list the changed files; its message.
    GitFailed(String),
}

/// How far a status is along the creation of a review: indexing, then
/// computing, then settled (ready or failed).
pub open spec fn creation_rank(s: ReviewStatus) -> int {
    match s {
        ReviewStatus::Indexing => 0,
        ReviewStatus::Computing => 1,
        _ => 2,
    }
}

/// `next` is the status after `event` of a review being created whose
/// status was `current`.
pub open spec fn creation_step(current: ReviewStatus, event: CreationEvent, next: ReviewStatus) -> bool {
    match (current, event) {
        (ReviewStatus::Indexing, CreationEvent::SymbolsExtracted) => next is Computing,
        (ReviewStatus::Computing, CreationEvent::DiffComputed) => next is Ready,
        (ReviewStatus::Computing, CreationEvent::GitFailed(m)) => next matches ReviewStatus::Error(e) && e@ == m@,
        _ => next == current,
    }
}

/// The status of a review being created after `event`: indexing moves to
/// computing once the symbols are extracted; computing moves to ready
/// once the diff is computed, or to an error with git's message. Any
/// other event leaves the status as it is.
pub fn creation_status(current: ReviewStatus, event: CreationEvent) -> (r: ReviewStatus)
    ensures
        creation_step(current, event, r),
{
    match (current, event) {
        (ReviewStatus::Indexing, CreationEvent::SymbolsExtracted) => ReviewStatus::Computing,
        (ReviewStatus::Computing, CreationEvent::DiffComputed) => ReviewStatus::Ready,
        (ReviewStatus::Computing, CreationEvent::GitFailed(m)) => ReviewStatus::Error(m),
        (s, _) => s,
    }
}

/// Law: while a review is created its status only moves forward,
/// indexing, then computing, then ready or failed, and a settled status
/// stays as it is.
pub proof fn law_creation_moves_forward(current: ReviewStatus, event: CreationEvent, next: ReviewStatus)
    requires
        creation_step(current, event, next),
    ensures
        creation_rank(current) <= creation_rank(next) <= creation_rank(current) + 1,
        creation_rank(current) == 2 ==> next == current,
        next is Ready ==> current is Computing || current is Ready,
{
}

/// What happens to a review while it moves to a new head.
#[derive(Debug)]
pub enum UpdateEvent {
    /// The new head differs from the old one: the update begins.
    Started,
    /// A git diff failed; the review keeps its diff.
    GitFailed,
    /// The new diff is in place.
    Applied,
}

/// `next` is the status after `event` of a review being updated whose
/// status was `current`.
pub open spec fn update_step(current: ReviewStatus, event: UpdateEvent, next: ReviewStatus) -> bool {
    match (current, event) {
        (ReviewStatus::Ready, UpdateEvent::Started) => next is Updating,
        (ReviewStatus::Updating, UpdateEvent::GitFailed) => next is Ready,
        (ReviewStatus::Updating, UpdateEvent::Applied) => next is Ready,
        _ => next == current,
    }
}

/// The status of a review being updated after `event`: a ready review is
/// updating once the update begins, and is ready again when the update
/// ends, whether its git diffs failed or the new diff is in place. Any
/// other event leaves the status as it is.
pub fn update_status(current: ReviewStatus, event: UpdateEvent) -> (r: ReviewStatus)
    ensures
        update_step(current, event, r),
{
    match (current, event) {
        (ReviewStatus::Ready, UpdateEvent::Started) => ReviewStatus::Updating,
        (ReviewStatus::Updating, UpdateEvent::GitFailed) => ReviewStatus::Ready,
        (ReviewStatus::Updating, UpdateEvent::Applied) => ReviewStatus::Ready,
        (s, _) => s,
    }
}

/// Law: an update leaves a review usable: from ready or updating, every
/// step leads to ready or updating, and an update that ends, either way,
/// leaves the review ready.
pub proof fn law_update_keeps_review_usable(current: ReviewStatus, event: UpdateEvent, next: ReviewStatus)
    requires
        current is Ready || current is Updating,
        update_step(current, event, next),
    ensures
        next is Ready || next is Updating,
        current is Updating && !(event is Started) ==> next is Ready,
{
}

/// Whether updating a review whose head is at `old_head_commit` to
/// `new_head_commit` has anything to do.
pub fn update_needed(old_head_commit: &str, new_head_commit: &str) -> (b: bool)
    ensures
        b == (old_head_commit@ != new_head_commit@),
{
    !same_text(old_head_commit, new_head_commit)
}

/// The error that an update reports when one of its git diffs fails; the
/// review is then ready again, unchanged.
pub fn git_diff_failed(message: &str) -> (e: ToolError)
    ensures
        e matches ToolError::Internal(m) && m@ == "git diff failed: "@ + message@,
{
    let mut m = "git diff failed: ".to_string();
    append_str(&mut m, message);
    ToolError::Internal(m)
}

/// Move a review to a new head, once git has reported the files changed
/// since the old head (`changed_paths`) and the full diff from the base to
/// the new head: the new review diff recomputes exactly those files, and
/// the cache forgets exactly them.
pub fn apply_update(
    cache: &mut ReviewCache,
    old_diff: &ReviewDiff,
    base_project: &ProjectIndex,
    head_project: &ProjectIndex,
    full_base_git_diffs: &[FileDiff],
    changed_paths: &[String],
) -> (r: ReviewDiff)
    ensures
        diff_matches(
            r,
            incremental_files(
                git_views(full_base_git_diffs@),
                file_views(old_diff.file_diffs@),
                changed_paths@,
                *base_project,
                *head_project,
            ),
            detect_moves_spec(
                incremental_symbols(
                    git_views(full_base_git_diffs@),
                    file_views(old_diff.file_diffs@),
                    sym_views(old_diff.symbol_diffs@),
                    changed_paths@,
                    *base_project,
                    *head_project,
                ),
                *base_project,
                *head_project,
            ),
        ),
        final(cache)@.safety_report is None,
        final(cache)@.test_coverage is None,
        final(cache)@.file_diffs == old(cache)@.file_diffs.remove_keys(
            changed_paths@.map_values(|f: String| f@).to_set(),
        ),
        final(cache)@.file_contexts == old(cache)@.file_contexts.remove_keys(
            changed_paths@.map_values(|f: String| f@).to_set(),
        ),
        final(cache)@.impact_results == old(cache)@.impact_results.restrict(
            Set::new(|k: Seq<char>| !listed(changed_paths@, key_file_part_spec(k))),
        ),
{
    let d = compute_incremental_diff(old_diff, base_project, head_project, full_base_git_diffs, changed_paths);
    cache.invalidate_files(changed_paths);
    d
}

} // verus!
