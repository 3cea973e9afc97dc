//! Stale references: call sites of a changed symbol that lie in files the
//! pull request did not touch, and so may still use the old form.
//!
//! Finding call sites reads the project's source files, so the search is
//! run outside this module: `reference_queries` says what to search for and
//! `compute_reference_check` judges the call sites found.

use vstd::prelude::*;

use crate::model::CallSite;
use crate::text::same_text;

use super::diff::ReviewDiff;
use super::impact::{entry_index, find_symbol_entry, lemma_entry_index};
use super::{opt_view, ReviewQueryError, SymbolChange};

verus! {

/// Maximum call sites looked up per query.
pub const REFERENCE_SEARCH_LIMIT: usize = 500;

/// A call site in a file the pull request left unmodified.
#[derive(Debug)]
pub struct StaleReference {
    pub file: String,
    pub line: usize,
    pub text: String,
}

/// The references of one changed symbol, and which of them the pull request
/// may have left stale.
#[derive(Debug)]
pub struct ReferenceCheckResult {
    pub symbol: String,
    pub file: String,
    /// "added", "deleted", "modified" or "moved".
    pub change: String,
    /// Set for modified and moved symbols.
    pub signature_changed: Option<bool>,
    pub total_references: usize,
    pub updated_in_pr: usize,
    pub not_updated: Vec<StaleReference>,
    /// "none", "medium" or "high".
    pub risk: String,
}

/// Which snapshot of the project a caller search runs on.
#[derive(Clone, Copy, Debug, PartialEq, Eq, Structural)]
pub enum Snapshot {
    Base,
    Head,
}

/// One caller search: call sites of `symbol` defined in `file`.
#[derive(Debug)]
pub struct ReferenceQuery {
    pub snapshot: Snapshot,
    pub symbol: String,
    pub file: String,
}

/// The snapshot whose callers are searched: a deleted symbol only exists in
/// the base, everything else is looked up in the head.
pub open spec fn query_snapshot(c: SymbolChange) -> Snapshot {
    if c is Deleted {
        Snapshot::Base
    } else {
        Snapshot::Head
    }
}

/// Whether `q` searches `snapshot` for `symbol` in `file`.
pub open spec fn query_is(q: ReferenceQuery, snapshot: Snapshot, symbol: Seq<char>, file: Seq<char>) -> bool {
    q.snapshot == snapshot && q.symbol@ == symbol && q.file@ == file
}

/// The error for a symbol that is not among the changed symbols.
pub open spec fn is_not_in_diff(e: ReviewQueryError, symbol: Seq<char>, file: Seq<char>) -> bool {
    e matches ReviewQueryError::SymbolNotInDiff { symbol: s, file: f } && s@ == symbol && f@ == file
}

/// The caller searches for a changed symbol: its own name and file, and for
/// a moved symbol also its old name (or its name, if unchanged) in its old
/// file, in the head snapshot.
pub fn reference_queries(review_diff: &ReviewDiff, symbol: &str, file: &str) -> (r: Result<
    (ReferenceQuery, Option<ReferenceQuery>),
    ReviewQueryError,
>)
    ensures
        ({
            let k = entry_index(review_diff.symbol_diffs@, symbol@, file@);
            match r {
                Ok((main, extra)) => {
                    let c = review_diff.symbol_diffs@[k].change;
                    &&& k >= 0
                    &&& query_is(main, query_snapshot(c), symbol@, file@)
                    &&& match c {
                        SymbolChange::Moved { old_file, old_name, .. } => extra matches Some(q) && query_is(
                            q,
                            Snapshot::Head,
                            match opt_view(old_name) {
                                Some(n) => n,
                                None => symbol@,
                            },
                            old_file@,
                        ),
                        _ => extra is None,
                    }
                },
                Err(e) => k < 0 && is_not_in_diff(e, symbol@, file@),
            }
        }),
{
    proof {
        lemma_entry_index(review_diff.symbol_diffs@, symbol@, file@);
    }
    let k = match find_symbol_entry(review_diff, symbol, file) {
        Some(k) => k,
        None => {
            return Err(
                ReviewQueryError::SymbolNotInDiff { symbol: symbol.to_string(), file: file.to_string() },
            )
        },
    };
    let entry = &review_diff.symbol_diffs[k];
    // For Deleted: query base project (symbol no longer exists in head).
    // For Moved: also query head project by old name in old file.
    let snapshot = match &entry.change {
        SymbolChange::Deleted => Snapshot::Base,
        _ => Snapshot::Head,
    };
    let main = ReferenceQuery { snapshot, symbol: symbol.to_string(), file: file.to_string() };
    let extra = match &entry.change {
        SymbolChange::Moved { old_file, old_name, .. } => {
            let search_name = match old_name {
                Some(n) => n.clone(),
                None => symbol.to_string(),
            };
            Some(ReferenceQuery { snapshot: Snapshot::Head, symbol: search_name, file: old_file.clone() })
        },
        _ => None,
    };
    Ok((main, extra))
}

/// Whether the pull request touched file `f`, under its new or its old path.
pub open spec fn pr_touches(d: ReviewDiff, f: Seq<char>) -> bool {
    exists|k: int|
        0 <= k < d.file_diffs@.len() && ((#[trigger] d.file_diffs@[k]).path@ == f || opt_view(
            d.file_diffs@[k].old_path,
        ) == Some(f))
}

fn touched(review_diff: &ReviewDiff, f: &str) -> (b: bool)
    ensures
        b == pr_touches(*review_diff, f@),
{
    let mut i: usize = 0;
    while i < review_diff.file_diffs.len()
        invariant
            0 <= i <= review_diff.file_diffs@.len(),
            forall|j: int|
                0 <= j < i ==> !((#[trigger] review_diff.file_diffs@[j]).path@ == f@ || opt_view(
                    review_diff.file_diffs@[j].old_path,
                ) == Some(f@)),
        decreases review_diff.file_diffs@.len() - i,
    {
        let e = &review_diff.file_diffs[i];
        if same_text(e.path.as_str(), f) {
            return true;
        }
        match &e.old_path {
            Some(o) => {
                if same_text(o.as_str(), f) {
                    return true;
                }
            },
            None => {},
        }
        i += 1;
    }
    false
}

/// The call sites of `cs` in files the pull request did not touch, in order.
pub open spec fn stale_refs(d: ReviewDiff, cs: Seq<CallSite>) -> Seq<StaleReference>
    decreases cs.len(),
{
    if cs.len() == 0 {
        seq![]
    } else {
        let rest = stale_refs(d, cs.drop_last());
        let c = cs.last();
        if pr_touches(d, c.file@) {
            rest
        } else {
            rest.push(StaleReference { file: c.file, line: c.line, text: c.text })
        }
    }
}

/// The name of a kind of change.
pub open spec fn change_name(c: SymbolChange) -> Seq<char> {
    match c {
        SymbolChange::Added => "added"@,
        SymbolChange::Deleted => "deleted"@,
        SymbolChange::Modified { .. } => "modified"@,
        SymbolChange::Moved { .. } => "moved"@,
    }
}

/// Whether the signature changed, for the kinds of change that record it.
pub open spec fn signature_change(c: SymbolChange) -> Option<bool> {
    match c {
        SymbolChange::Modified { signature_changed, .. } => Some(signature_changed),
        SymbolChange::Moved { signature_changed, .. } => Some(signature_changed),
        _ => None,
    }
}

/// No stale reference is no risk; a stale reference to a deleted symbol or
/// to one whose signature changed is high risk; any other is medium.
pub open spec fn reference_risk(c: SymbolChange, stale_count: nat) -> Seq<char> {
    if stale_count == 0 {
        "none"@
    } else if signature_change(c) == Some(true) || c is Deleted {
        "high"@
    } else {
        "medium"@
    }
}

/// What a reference check holds for a changed symbol and its call sites.
pub open spec fn reference_result_is(
    r: ReferenceCheckResult,
    d: ReviewDiff,
    symbol: Seq<char>,
    file: Seq<char>,
    c: SymbolChange,
    all: Seq<CallSite>,
) -> bool {
    &&& r.symbol@ == symbol
    &&& r.file@ == file
    &&& r.change@ == change_name(c)
    &&& r.signature_changed == signature_change(c)
    &&& r.not_updated@ == stale_refs(d, all)
    &&& r.total_references == all.len()
    &&& r.updated_in_pr == all.len() - stale_refs(d, all).len()
    &&& r.risk@ == reference_risk(c, stale_refs(d, all).len())
}

/// Judge the call sites of a changed symbol: `callers` are those found by
/// the main query of `reference_queries` and `extra_callers` those found by
/// its second query (none when there is none). Each call site in a file the
/// pull request touched (under its new or old path) counts as updated; the
/// others are reported as stale. `Err` when the symbol is not in the diff.
pub fn compute_reference_check(
    review_diff: &ReviewDiff,
    symbol: &str,
    file: &str,
    callers: &[CallSite],
    extra_callers: &[CallSite],
) -> (r: Result<ReferenceCheckResult, ReviewQueryError>)
    requires
        callers@.len() + extra_callers@.len() <= usize::MAX,
    ensures
        ({
            let k = entry_index(review_diff.symbol_diffs@, symbol@, file@);
            match r {
                Ok(res) => k >= 0 && reference_result_is(
                    res,
                    *review_diff,
                    symbol@,
                    file@,
                    review_diff.symbol_diffs@[k].change,
                    callers@ + extra_callers@,
                ),
                Err(e) => k < 0 && is_not_in_diff(e, symbol@, file@),
            }
        }),
{
    proof {
        lemma_entry_index(review_diff.symbol_diffs@, symbol@, file@);
    }
    let k = match find_symbol_entry(review_diff, symbol, file) {
        Some(k) => k,
        None => {
            return Err(
                ReviewQueryError::SymbolNotInDiff { symbol: symbol.to_string(), file: file.to_string() },
            )
        },
    };
    let entry = &review_diff.symbol_diffs[k];
    let (change, signature_changed) = match &entry.change {
        SymbolChange::Added => ("added", None),
        SymbolChange::Deleted => ("deleted", None),
        SymbolChange::Modified { signature_changed, .. } => ("modified", Some(*signature_changed)),
        SymbolChange::Moved { signature_changed, .. } => ("moved", Some(*signature_changed)),
    };
    let ghost all = callers@ + extra_callers@;
    let n1 = callers.len();
    let total = n1 + extra_callers.len();
    let mut not_updated: Vec<StaleReference> = Vec::new();
    let mut updated_in_pr: usize = 0;
    let mut i: usize = 0;
    while i < total
        invariant
            0 <= i <= total == all.len(),
            n1 == callers@.len(),
            all == callers@ + extra_callers@,
            not_updated@ == stale_refs(*review_diff, all.take(i as int)),
            updated_in_pr + not_updated@.len() == i,
        decreases total - i,
    {
        let caller = if i < n1 {
            &callers[i]
        } else {
            &extra_callers[i - n1]
        };
        assert(*caller == all[i as int]);
        assert(all.take(i + 1).drop_last() =~= all.take(i as int));
        if touched(review_diff, caller.file.as_str()) {
            updated_in_pr += 1;
        } else {
            not_updated.push(
                StaleReference { file: caller.file.clone(), line: caller.line, text: caller.text.clone() },
            );
        }
        i += 1;
    }
    assert(all.take(i as int) =~= all);
    let risk = if not_updated.len() == 0 {
        "none"
    } else {
        match signature_changed {
            Some(true) => "high",
            _ => match &entry.change {
                SymbolChange::Deleted => "high",
                _ => "medium",
            },
        }
    };
    Ok(
        ReferenceCheckResult {
            symbol: symbol.to_string(),
            file: file.to_string(),
            change: change.to_string(),
            signature_changed,
            total_references: total,
            updated_in_pr,
            not_updated,
            risk: risk.to_string(),
        },
    )
}

/// For a modified or moved symbol the reported signature change is the
/// entry's own flag, and stale references to a symbol whose signature
/// changed are high risk, to one whose signature did not, medium risk. A
/// stale reference to a deleted symbol is high risk, to an added one
/// medium; without stale references there is no risk. Every reference
/// counts as updated or stale.
pub proof fn law_reference_signature_and_risk(
    r: ReferenceCheckResult,
    d: ReviewDiff,
    symbol: Seq<char>,
    file: Seq<char>,
    c: SymbolChange,
    all: Seq<CallSite>,
)
    requires
        reference_result_is(r, d, symbol, file, c, all),
    ensures
        c matches SymbolChange::Moved { signature_changed, .. } ==> r.signature_changed == Some(signature_changed),
        c matches SymbolChange::Modified { signature_changed, .. } ==> r.signature_changed == Some(
            signature_changed,
        ),
        (c matches SymbolChange::Moved { signature_changed: true, .. }) && r.not_updated@.len() > 0 ==> r.risk@
            == "high"@,
        (c matches SymbolChange::Modified { signature_changed: true, .. }) && r.not_updated@.len() > 0 ==> r.risk@
            == "high"@,
        (c matches SymbolChange::Moved { signature_changed: false, .. }) && r.not_updated@.len() > 0 ==> r.risk@
            == "medium"@,
        r.not_updated@.len() == 0 ==> r.risk@ == "none"@,
        c is Deleted && r.not_updated@.len() > 0 ==> r.risk@ == "high"@,
        c is Added && r.not_updated@.len() > 0 ==> r.risk@ == "medium"@,
        (c is Added || c is Deleted) ==> r.signature_changed is None,
        r.updated_in_pr + r.not_updated@.len() == r.total_references,
        r.total_references == all.len(),
{
}

/// Whether some file entry of `d` has `f` as its path or its old path.
pub open spec fn listed_in_diff(d: ReviewDiff, f: Seq<char>) -> bool {
    exists|k: int|
        0 <= k < d.file_diffs@.len() && ((#[trigger] d.file_diffs@[k]).path@ == f || (d.file_diffs@[k].old_path matches Some(
            o,
        ) && o@ == f))
}

proof fn lemma_touches_is_listed(d: ReviewDiff, f: Seq<char>)
    ensures
        pr_touches(d, f) == listed_in_diff(d, f),
{
    if pr_touches(d, f) {
        let k = choose|k: int|
            0 <= k < d.file_diffs@.len() && ((#[trigger] d.file_diffs@[k]).path@ == f || opt_view(
                d.file_diffs@[k].old_path,
            ) == Some(f));
        assert(d.file_diffs@[k].path@ == f || (d.file_diffs@[k].old_path matches Some(o) && o@ == f));
    }
    if listed_in_diff(d, f) {
        let k = choose|k: int|
            0 <= k < d.file_diffs@.len() && ((#[trigger] d.file_diffs@[k]).path@ == f || (
            d.file_diffs@[k].old_path matches Some(o) && o@ == f));
        assert(d.file_diffs@[k].path@ == f || opt_view(d.file_diffs@[k].old_path) == Some(f));
    }
}

/// The stale references are exactly the call sites in files that no file
/// entry of the review names, under its new or its old path: each stale
/// reference is such a call site, and each such call site is reported.
pub proof fn law_stale_references_are_untouched_sites(d: ReviewDiff, cs: Seq<CallSite>)
    ensures
        stale_refs(d, cs).len() <= cs.len(),
        forall|k: int|
            0 <= k < stale_refs(d, cs).len() ==> exists|i: int|
                0 <= i < cs.len() && !listed_in_diff(d, cs[i].file@) && (#[trigger] stale_refs(d, cs)[k]).file
                    == cs[i].file && stale_refs(d, cs)[k].line == cs[i].line && stale_refs(d, cs)[k].text
                    == cs[i].text,
        forall|i: int|
            0 <= i < cs.len() && !listed_in_diff(d, (#[trigger] cs[i]).file@) ==> exists|k: int|
                0 <= k < stale_refs(d, cs).len() && stale_refs(d, cs)[k].file == cs[i].file && stale_refs(
                    d,
                    cs,
                )[k].line == cs[i].line,
    decreases cs.len(),
{
    if cs.len() > 0 {
        let rest = cs.drop_last();
        law_stale_references_are_untouched_sites(d, rest);
        let c = cs.last();
        lemma_touches_is_listed(d, c.file@);
        let st = stale_refs(d, cs);
        let sr = stale_refs(d, rest);
        assert forall|k: int| 0 <= k < sr.len() implies st[k] == sr[k] by {}
        assert forall|k: int| 0 <= k < st.len() implies exists|i: int|
            0 <= i < cs.len() && !listed_in_diff(d, cs[i].file@) && (#[trigger] st[k]).file == cs[i].file
                && st[k].line == cs[i].line && st[k].text == cs[i].text by {
            if k < sr.len() {
                let i = choose|i: int|
                    0 <= i < rest.len() && !listed_in_diff(d, rest[i].file@) && (#[trigger] sr[k]).file == rest[i].file
                        && sr[k].line == rest[i].line && sr[k].text == rest[i].text;
                assert(cs[i] == rest[i]);
            } else {
                assert(cs[cs.len() - 1] == c);
            }
        }
        assert forall|i: int| 0 <= i < cs.len() && !listed_in_diff(d, (#[trigger] cs[i]).file@) implies exists|k: int|
            0 <= k < st.len() && st[k].file == cs[i].file && st[k].line == cs[i].line by {
            if i < cs.len() - 1 {
                assert(rest[i] == cs[i]);
                let k = choose|k: int| 0 <= k < sr.len() && sr[k].file == rest[i].file && sr[k].line == rest[i].line;
                assert(st[k] == sr[k]);
            } else {
                assert(st[sr.len() as int].file == c.file);
            }
        }
    }
}

} // verus!
