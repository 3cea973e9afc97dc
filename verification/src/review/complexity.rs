//! Complexity of modified symbols before and after the change: line count,
//! brace nesting depth and parameter count.

use vstd::prelude::*;

use crate::model::{find_symbol, ProjectIndex, Symbol, SymbolKind};
use crate::text::{chars_of, find_char, find_char_from, lemma_find_char, lines, same_text, split_lines};

use super::diff::ReviewDiff;
use super::SymbolChange;

verus! {

/// Size and shape of one version of a symbol.
#[derive(Clone, Copy, Debug, PartialEq, Eq, Structural)]
pub struct ComplexityMetrics {
    pub lines: usize,
    pub max_nesting: usize,
    pub parameters: usize,
}

/// Base and head metrics of a modified symbol.
#[derive(Debug)]
pub struct ComplexityDelta {
    pub symbol: String,
    pub file: String,
    pub kind: SymbolKind,
    pub base: ComplexityMetrics,
    pub head: ComplexityMetrics,
    pub delta: ComplexityMetrics,
    /// True when any head metric is larger than the corresponding base metric.
    pub regression: bool,
}

// ---------------------------------------------------------------------------
// Brace nesting
// ---------------------------------------------------------------------------

/// Scanner state while measuring brace nesting: the current depth and the
/// deepest level reached.
pub struct NestState {
    pub depth: nat,
    pub max_depth: nat,
}

/// One character of the scan: every `{` opens a nesting level and every
/// `}` closes one (never below zero), wherever they stand, strings and
/// comments included.
pub open spec fn nest_step(st: NestState, ch: char) -> NestState {
    if ch == '{' {
        NestState {
            depth: st.depth + 1,
            max_depth: if st.depth + 1 > st.max_depth {
                st.depth + 1
            } else {
                st.max_depth
            },
        }
    } else if ch == '}' {
        NestState {
            depth: if st.depth > 0 {
                (st.depth - 1) as nat
            } else {
                0nat
            },
            max_depth: st.max_depth,
        }
    } else {
        st
    }
}

/// The scanner state after reading `s`.
pub open spec fn nest_scan(s: Seq<char>) -> NestState
    decreases s.len(),
{
    if s.len() == 0 {
        NestState { depth: 0, max_depth: 0 }
    } else {
        nest_step(nest_scan(s.drop_last()), s.last())
    }
}

/// Maximum brace nesting, less one for the outermost body brace.
pub open spec fn max_nesting_spec(s: Seq<char>) -> nat {
    let m = nest_scan(s).max_depth;
    if m > 0 {
        (m - 1) as nat
    } else {
        0
    }
}

/// Compute max brace-nesting depth. Ignores string/comment context for
/// simplicity (every brace counts); gives a reasonable proxy for
/// control-flow nesting.
pub fn compute_max_nesting(source: &str) -> (r: usize)
    ensures
        r == max_nesting_spec(source@),
{
    let cs = chars_of(source);
    let mut depth: usize = 0;
    let mut max_depth: usize = 0;
    let mut i: usize = 0;
    while i < cs.len()
        invariant
            0 <= i <= cs@.len(),
            cs@ == source@,
            depth <= i,
            max_depth <= i,
            nest_scan(cs@.take(i as int)) == (NestState { depth: depth as nat, max_depth: max_depth as nat }),
        decreases cs@.len() - i,
    {
        let ch = cs[i];
        assert(cs@.take(i + 1).drop_last() =~= cs@.take(i as int));
        assert(cs@.take(i + 1).last() == ch);
        if ch == '{' {
            depth += 1;
            if depth > max_depth {
                max_depth = depth;
            }
        } else if ch == '}' {
            depth = if depth > 0 { depth - 1 } else { 0 };
        }
        i += 1;
    }
    assert(cs@.take(i as int) =~= cs@);
    // Subtract 1 to discount the outermost function body brace.
    if max_depth > 0 { max_depth - 1 } else { 0 }
}

// ---------------------------------------------------------------------------
// Parameter count
// ---------------------------------------------------------------------------

/// Scanner state while counting parameters.
pub struct ParamState {
    pub depth: nat,
    pub commas: nat,
    pub has_content: bool,
    pub done: bool,
}

/// One character of a parameter list: brackets nest, the closing bracket at
/// depth 0 ends the list, commas at depth 0 separate parameters, and any
/// other character except whitespace and brackets counts as content.
pub open spec fn param_step(st: ParamState, ch: char) -> ParamState {
    if st.done {
        st
    } else if ch == '(' || ch == '[' || ch == '<' {
        ParamState { depth: st.depth + 1, ..st }
    } else if ch == ')' || ch == ']' || ch == '>' {
        if st.depth == 0 {
            ParamState { done: true, ..st }
        } else {
            ParamState { depth: (st.depth - 1) as nat, ..st }
        }
    } else if ch == ',' && st.depth == 0 {
        ParamState { commas: st.commas + 1, ..st }
    } else if ch == ' ' || ch == '\t' || ch == '\n' {
        st
    } else {
        ParamState { has_content: true, ..st }
    }
}

pub open spec fn param_scan(s: Seq<char>) -> ParamState
    decreases s.len(),
{
    if s.len() == 0 {
        ParamState { depth: 0, commas: 0, has_content: false, done: false }
    } else {
        param_step(param_scan(s.drop_last()), s.last())
    }
}

/// Parameters in the list that follows the first `(` of a signature: one
/// more than its top-level commas, or none when it holds nothing.
pub open spec fn parameters_spec(sig: Seq<char>) -> nat {
    let open = find_char(sig, '(');
    if open < 0 {
        0
    } else {
        let st = param_scan(sig.skip(open + 1));
        if !st.has_content {
            0
        } else {
            st.commas + 1
        }
    }
}

/// Count parameters from a signature string by counting commas in the
/// outermost parentheses.
pub fn count_parameters(signature: &str) -> (r: usize)
    ensures
        r == parameters_spec(signature@),
{
    let cs = chars_of(signature);
    assert(cs@.skip(0) =~= cs@);
    proof {
        lemma_find_char(cs@, '(');
    }
    let start = match find_char_from(&cs, 0, '(') {
        Some(i) => {
            assert(cs@.skip(0) == cs@);
            assert(find_char(cs@, '(') == i as int);
            assert(i < cs.len());
            i + 1
        },
        None => {
            return 0;
        },
    };
    let ghost rest = cs@.skip(start as int);
    let mut depth: usize = 0;
    let mut commas: usize = 0;
    let mut has_content = false;
    let mut done = false;
    let mut i = start;
    while i < cs.len()
        invariant
            start <= i <= cs@.len(),
            rest == cs@.skip(start as int),
            depth <= i - start,
            commas <= i - start,
            param_scan(rest.take(i - start)) == (ParamState {
                depth: depth as nat,
                commas: commas as nat,
                has_content,
                done,
            }),
        decreases cs@.len() - i,
    {
        let ch = cs[i];
        assert(rest.take(i - start + 1).drop_last() =~= rest.take(i - start));
        assert(rest.take(i - start + 1).last() == ch);
        if !done {
            if ch == '(' || ch == '[' || ch == '<' {
                depth += 1;
            } else if ch == ')' || ch == ']' || ch == '>' {
                if depth == 0 {
                    // Reached closing paren of parameter list.
                    done = true;
                } else {
                    depth -= 1;
                }
            } else if ch == ',' && depth == 0 {
                commas += 1;
            } else if ch == ' ' || ch == '\t' || ch == '\n' {
            } else {
                has_content = true;
            }
        }
        i += 1;
    }
    assert(rest.take(i - start) =~= rest);
    if !has_content { 0 } else { commas + 1 }
}

// ---------------------------------------------------------------------------
// Deltas
// ---------------------------------------------------------------------------

/// Line count, nesting depth and parameter count of a symbol version.
pub open spec fn metrics_spec(s: Symbol) -> ComplexityMetrics {
    ComplexityMetrics {
        lines: lines(s.body@).len() as usize,
        max_nesting: max_nesting_spec(s.body@) as usize,
        parameters: parameters_spec(s.signature@) as usize,
    }
}

pub fn measure_symbol(sym: &Symbol) -> (r: ComplexityMetrics)
    ensures
        r == metrics_spec(*sym),
{
    let source = sym.body.as_str();
    let lines = split_lines(source).len();
    let max_nesting = compute_max_nesting(source);
    let parameters = count_parameters(sym.signature.as_str());
    ComplexityMetrics { lines, max_nesting, parameters }
}

pub open spec fn sat_sub(a: usize, b: usize) -> usize {
    if a >= b {
        (a - b) as usize
    } else {
        0
    }
}

/// Whether a symbol entry is measured: a modification (in `filter`'s file
/// when one is given) of something other than an import or a variable.
pub open spec fn measured(e: super::SymbolDiffEntry, filter: Option<Seq<char>>) -> bool {
    &&& e.change is Modified
    &&& (filter matches Some(f) ==> e.file@ == f)
    &&& !(e.kind is Import || e.kind is Variable)
}

/// What a delta holds for a symbol with base and head versions `b` and `h`.
pub open spec fn delta_is(d: ComplexityDelta, e: super::SymbolDiffEntry, b: Symbol, h: Symbol) -> bool {
    let bm = metrics_spec(b);
    let hm = metrics_spec(h);
    &&& d.symbol == e.name
    &&& d.file == e.file
    &&& d.kind == e.kind
    &&& d.base == bm
    &&& d.head == hm
    &&& d.delta == (ComplexityMetrics {
        lines: sat_sub(hm.lines, bm.lines),
        max_nesting: sat_sub(hm.max_nesting, bm.max_nesting),
        parameters: sat_sub(hm.parameters, bm.parameters),
    })
    &&& d.regression == (hm.lines > bm.lines || hm.max_nesting > bm.max_nesting || hm.parameters > bm.parameters)
}

/// The measured entries among the first `n` symbol entries that both
/// snapshots hold, with their base and head versions.
pub open spec fn complexity_targets(
    ss: Seq<super::SymbolDiffEntry>,
    base: ProjectIndex,
    head: ProjectIndex,
    filter: Option<Seq<char>>,
    n: int,
) -> Seq<(super::SymbolDiffEntry, Symbol, Symbol)>
    decreases n,
{
    if n <= 0 {
        seq![]
    } else {
        let prev = complexity_targets(ss, base, head, filter, n - 1);
        let e = ss[n - 1];
        if measured(e, filter) {
            match (find_symbol(base.symbols@, e.file@, e.name@), find_symbol(head.symbols@, e.file@, e.name@)) {
                (Some(b), Some(h)) => prev.push((e, b, h)),
                _ => prev,
            }
        } else {
            prev
        }
    }
}

pub open spec fn opt_str(o: Option<&str>) -> Option<Seq<char>> {
    match o {
        Some(s) => Some(s@),
        None => None,
    }
}

/// Compute complexity deltas for all modified symbols in the PR.
/// Only Modified symbols have a meaningful before/after comparison.
pub fn compute_complexity(
    review_diff: &ReviewDiff,
    base_project: &ProjectIndex,
    head_project: &ProjectIndex,
    file_filter: Option<&str>,
) -> (r: Vec<ComplexityDelta>)
    ensures
        ({
            let ts = complexity_targets(
                review_diff.symbol_diffs@,
                *base_project,
                *head_project,
                opt_str(file_filter),
                review_diff.symbol_diffs@.len() as int,
            );
            &&& r@.len() == ts.len()
            &&& forall|k: int| 0 <= k < ts.len() ==> delta_is(#[trigger] r@[k], ts[k].0, ts[k].1, ts[k].2)
        }),
{
    let ghost ss = review_diff.symbol_diffs@;
    let ghost filter = opt_str(file_filter);
    let mut deltas: Vec<ComplexityDelta> = Vec::new();
    let mut i: usize = 0;
    while i < review_diff.symbol_diffs.len()
        invariant
            0 <= i <= ss.len(),
            ss == review_diff.symbol_diffs@,
            filter == opt_str(file_filter),
            deltas@.len() == complexity_targets(ss, *base_project, *head_project, filter, i as int).len(),
            forall|k: int|
                0 <= k < deltas@.len() ==> delta_is(
                    #[trigger] deltas@[k],
                    complexity_targets(ss, *base_project, *head_project, filter, i as int)[k].0,
                    complexity_targets(ss, *base_project, *head_project, filter, i as int)[k].1,
                    complexity_targets(ss, *base_project, *head_project, filter, i as int)[k].2,
                ),
        decreases ss.len() - i,
    {
        let sym = &review_diff.symbol_diffs[i];
        let is_modified = match &sym.change {
            SymbolChange::Modified { .. } => true,
            _ => false,
        };
        let in_filter = match file_filter {
            Some(file) => same_text(sym.file.as_str(), file),
            None => true,
        };
        // Skip imports and variables — complexity metrics don't apply.
        let applies = match sym.kind {
            SymbolKind::Import | SymbolKind::Variable => false,
            _ => true,
        };
        if is_modified && in_filter && applies {
            let base_sym = base_project.get(sym.file.as_str(), sym.name.as_str());
            let head_sym = head_project.get(sym.file.as_str(), sym.name.as_str());
            if let (Some(base_sym), Some(head_sym)) = (base_sym, head_sym) {
                let base_metrics = measure_symbol(&base_sym);
                let head_metrics = measure_symbol(&head_sym);
                let delta = ComplexityMetrics {
                    lines: if head_metrics.lines >= base_metrics.lines { head_metrics.lines - base_metrics.lines } else { 0 },
                    max_nesting: if head_metrics.max_nesting >= base_metrics.max_nesting {
                        head_metrics.max_nesting - base_metrics.max_nesting
                    } else {
                        0
                    },
                    parameters: if head_metrics.parameters >= base_metrics.parameters {
                        head_metrics.parameters - base_metrics.parameters
                    } else {
                        0
                    },
                };
                let regression = head_metrics.lines > base_metrics.lines || head_metrics.max_nesting
                    > base_metrics.max_nesting || head_metrics.parameters > base_metrics.parameters;
                let ghost prev = deltas@;
                deltas.push(ComplexityDelta {
                    symbol: sym.name.clone(),
                    file: sym.file.clone(),
                    kind: sym.kind,
                    base: base_metrics,
                    head: head_metrics,
                    delta,
                    regression,
                });
                assert forall|k: int| 0 <= k < prev.len() implies deltas@[k] == prev[k] by {}
            }
        }
        i += 1;
    }
    deltas
}

/// A change regresses exactly when some metric grew: when some field of
/// the delta is positive, that is when some head metric exceeds its base
/// metric; the delta of a metric that did not grow is zero.
pub proof fn law_regression_when_a_metric_grew(d: ComplexityDelta, e: super::SymbolDiffEntry, b: Symbol, h: Symbol)
    requires
        delta_is(d, e, b, h),
    ensures
        d.regression == (d.delta.lines > 0 || d.delta.max_nesting > 0 || d.delta.parameters > 0),
        d.regression == (d.head.lines > d.base.lines || d.head.max_nesting > d.base.max_nesting || d.head.parameters
            > d.base.parameters),
        d.head.lines <= d.base.lines ==> d.delta.lines == 0,
        d.head.max_nesting <= d.base.max_nesting ==> d.delta.max_nesting == 0,
        d.head.parameters <= d.base.parameters ==> d.delta.parameters == 0,
        d.delta.lines + d.base.lines >= d.head.lines,
{
}

} // verus!
