//! Blast radius of changed symbols: their callers in the base branch, which
//! of those the PR left untouched, and which changed symbols have tests.
//!
//! Finding call sites and tests reads the project's source files, so it is
//! done outside this module; the caller search below is a state machine that
//! says which symbol to look up next and what to do with the call sites found.

use vstd::prelude::*;

use crate::model::{symbols_in_file, CallSite, ProjectIndex, Symbol, SymbolKind, TestSite};
use crate::text::{push_char, push_decimal, same_text, decimal};

use super::diff::{path_listed, ReviewDiff};
use super::{
    clone_opt, CallerWithRisk, CoveredSymbol, ImpactResult, RiskLevel, SafetyIssue, SafetyReport,
    SymbolChange, SymbolDiffEntry, TestCoverageReport, TestWithStatus, UncoveredSymbol,
};

verus! {

/// Maximum callers expanded per symbol per BFS level.
pub const MAX_CALLERS_PER_LEVEL: usize = 20;

/// Hard cap on total callers returned across all depths.
pub const MAX_TOTAL_CALLERS: usize = 500;

/// Maximum allowed depth (server-side guard).
pub const DEPTH_LIMIT: usize = 3;

/// Maximum tests looked up per symbol for an impact report.
pub const IMPACT_TEST_LIMIT: usize = 50;

/// Maximum tests looked up per symbol for the coverage report.
pub const COVERAGE_TEST_LIMIT: usize = 20;

/// Build the set of file paths that are modified in the PR.
pub fn modified_files(review_diff: &ReviewDiff) -> (r: Vec<String>)
    ensures
        r@ == review_diff.file_diffs@.map_values(|f: super::FileDiffEntry| f.path),
{
    let mut r: Vec<String> = Vec::new();
    let mut i: usize = 0;
    while i < review_diff.file_diffs.len()
        invariant
            0 <= i <= review_diff.file_diffs@.len(),
            r@ == review_diff.file_diffs@.take(i as int).map_values(|f: super::FileDiffEntry| f.path),
        decreases review_diff.file_diffs@.len() - i,
    {
        r.push(review_diff.file_diffs[i].path.clone());
        assert(r@ =~= review_diff.file_diffs@.take(i + 1).map_values(|f: super::FileDiffEntry| f.path));
        i += 1;
    }
    assert(review_diff.file_diffs@.take(i as int) =~= review_diff.file_diffs@);
    r
}

fn listed(paths: &Vec<String>, p: &str) -> (b: bool)
    ensures
        b == path_listed(paths@, p@),
{
    let mut i: usize = 0;
    while i < paths.len()
        invariant
            0 <= i <= paths@.len(),
            forall|j: int| 0 <= j < i ==> (#[trigger] paths@[j])@ != p@,
        decreases paths@.len() - i,
    {
        if same_text(paths[i].as_str(), p) {
            return true;
        }
        i += 1;
    }
    false
}

// ---------------------------------------------------------------------------
// Enclosing function
// ---------------------------------------------------------------------------

/// A function or method whose line range contains `line`.
pub open spec fn is_enclosing(s: Symbol, line: usize) -> bool {
    (s.kind is Function || s.kind is Method) && s.line_range.0 <= line && line <= s.line_range.1
}

/// Number of lines spanned after the first (0 for an inverted range).
pub open spec fn span(s: Symbol) -> int {
    if s.line_range.1 >= s.line_range.0 {
        s.line_range.1 - s.line_range.0
    } else {
        0
    }
}

/// The enclosing symbol of `line` with the smallest span; the earliest one
/// among equally small spans.
pub open spec fn innermost(syms: Seq<Symbol>, line: usize) -> Option<Symbol>
    decreases syms.len(),
{
    if syms.len() == 0 {
        None
    } else {
        let best = innermost(syms.drop_last(), line);
        let s = syms.last();
        if is_enclosing(s, line) {
            match best {
                None => Some(s),
                Some(b) => if span(s) < span(b) {
                    Some(s)
                } else {
                    best
                },
            }
        } else {
            best
        }
    }
}

/// The innermost function or method of `file` that contains `line`.
pub open spec fn enclosing_spec(p: ProjectIndex, file: Seq<char>, line: usize) -> Option<Symbol> {
    innermost(symbols_in_file(p.symbols@, file), line)
}

/// Find the innermost function or method symbol that contains `line` in `file`.
pub fn enclosing_function(project: &ProjectIndex, file: &str, line: usize) -> (r: Option<Symbol>)
    ensures
        r == enclosing_spec(*project, file@, line),
{
    let syms = project.list_by_file(file);
    let mut best: Option<Symbol> = None;
    let mut i: usize = 0;
    while i < syms.len()
        invariant
            0 <= i <= syms@.len(),
            syms@ == symbols_in_file(project.symbols@, file@),
            best == innermost(syms@.take(i as int), line),
        decreases syms@.len() - i,
    {
        let s = &syms[i];
        assert(syms@.take(i + 1).drop_last() =~= syms@.take(i as int));
        assert(syms@.take(i + 1).last() == *s);
        let enclosing = (match s.kind {
            SymbolKind::Function | SymbolKind::Method => true,
            _ => false,
        }) && s.line_range.0 <= line && line <= s.line_range.1;
        if enclosing {
            let s_span = s.line_range.1 - s.line_range.0;
            let replace = match &best {
                None => true,
                Some(b) => {
                    let b_span = if b.line_range.1 >= b.line_range.0 {
                        b.line_range.1 - b.line_range.0
                    } else {
                        0
                    };
                    s_span < b_span
                },
            };
            if replace {
                best = Some(s.clone());
            }
        }
        i += 1;
    }
    assert(syms@.take(i as int) =~= syms@);
    best
}

// ---------------------------------------------------------------------------
// Caller search (breadth-first, over several hops)
// ---------------------------------------------------------------------------

/// A symbol whose callers are to be looked up, `depth` hops from the
/// changed symbol, reached through the function named `via`.
#[derive(Debug)]
pub struct CallerQuery {
    pub file: String,
    pub symbol: String,
    pub depth: usize,
    pub via: Option<String>,
}

impl Clone for CallerQuery {
    fn clone(&self) -> (r: Self)
        ensures
            r == *self,
    {
        CallerQuery {
            file: self.file.clone(),
            symbol: self.symbol.clone(),
            depth: self.depth,
            via: clone_opt(&self.via),
        }
    }
}

/// Breadth-first expansion of callers up to a maximum depth. Direct callers
/// have `depth=1, via=None`; callers of callers have `depth=2,
/// via=Some(intermediate_function_name)`, and so on.
pub struct CallerSearch {
    /// Every query ever scheduled; those before `next` have been handed out.
    pub queue: Vec<CallerQuery>,
    pub next: usize,
    /// (file, symbol) pairs already scheduled.
    pub visited: Vec<(String, String)>,
    pub callers: Vec<CallerWithRisk>,
    pub max_depth: usize,
}

/// The part of a caller search that recording call sites changes.
pub struct SearchState {
    pub queue: Seq<CallerQuery>,
    pub visited: Seq<(String, String)>,
    pub callers: Seq<CallerWithRisk>,
}

pub open spec fn visited_contains(v: Seq<(String, String)>, file: Seq<char>, name: Seq<char>) -> bool {
    exists|k: int| 0 <= k < v.len() && (#[trigger] v[k]).0@ == file && v[k].1@ == name
}

/// Recording one call site found for query `q`: below the total cap it is
/// kept, tagged with whether its file is modified in the PR, and the
/// function enclosing it is scheduled one hop further unless the depth
/// limit is reached or that function was scheduled before.
pub open spec fn record_one(
    st: SearchState,
    max_depth: usize,
    q: CallerQuery,
    c: CallSite,
    p: ProjectIndex,
    modified: Seq<String>,
) -> SearchState {
    if st.callers.len() >= MAX_TOTAL_CALLERS {
        st
    } else {
        let rec = CallerWithRisk {
            file: c.file,
            line: c.line,
            text: c.text,
            also_modified_in_pr: path_listed(modified, c.file@),
            depth: q.depth,
            via: q.via,
        };
        let callers = st.callers.push(rec);
        let enc = enclosing_spec(p, c.file@, c.line);
        if q.depth < max_depth && enc is Some && !visited_contains(
            st.visited,
            enc->0.file@,
            enc->0.name@,
        ) {
            let e = enc->0;
            SearchState {
                queue: st.queue.push(
                    CallerQuery { file: e.file, symbol: e.name, depth: (q.depth + 1) as usize, via: Some(e.name) },
                ),
                visited: st.visited.push((e.file, e.name)),
                callers,
            }
        } else {
            SearchState { queue: st.queue, visited: st.visited, callers }
        }
    }
}

/// Recording the call sites `cs`, in order.
pub open spec fn record_all(
    st: SearchState,
    max_depth: usize,
    q: CallerQuery,
    cs: Seq<CallSite>,
    p: ProjectIndex,
    modified: Seq<String>,
) -> SearchState
    decreases cs.len(),
{
    if cs.len() == 0 {
        st
    } else {
        record_one(record_all(st, max_depth, q, cs.drop_last(), p, modified), max_depth, q, cs.last(), p, modified)
    }
}

/// A hop count within `1..=max_depth`, with an intermediate function named
/// exactly when the hop is not direct: direct callers have `depth == 1`
/// and no `via`; callers of callers name the function they call through.
pub open spec fn hop_is_consistent(depth: usize, via: Option<String>, max_depth: usize) -> bool {
    &&& 1 <= depth <= max_depth
    &&& (depth == 1 <==> via is None)
}

/// `max_depth` clamped to `1..=DEPTH_LIMIT`.
pub open spec fn clamp_depth(d: usize) -> usize {
    if d < 1 {
        1
    } else if d > DEPTH_LIMIT {
        DEPTH_LIMIT
    } else {
        d
    }
}

/// Queries come in non-decreasing depth.
pub open spec fn queries_breadth_first(q: Seq<CallerQuery>) -> bool {
    forall|i: int, j: int| 0 <= i <= j < q.len() ==> (#[trigger] q[i]).depth <= (#[trigger] q[j]).depth
}

/// Callers come in non-decreasing depth.
pub open spec fn callers_breadth_first(c: Seq<CallerWithRisk>) -> bool {
    forall|i: int, j: int| 0 <= i <= j < c.len() ==> (#[trigger] c[i]).depth <= (#[trigger] c[j]).depth
}

/// No (file, symbol) pair occurs twice.
pub open spec fn pairs_distinct(v: Seq<(String, String)>) -> bool {
    forall|i: int, j: int|
        0 <= i < j < v.len() ==> !((#[trigger] v[i]).0@ == (#[trigger] v[j]).0@ && v[i].1@ == v[j].1@)
}

impl CallerSearch {
    /// Depth is in range, the cursor within the queue, the caller list within
    /// its cap, and every scheduled query and recorded caller at least one
    /// and at most `max_depth` hops away, reached directly exactly when it is
    /// one hop away. The search is breadth-first: scheduled queries and
    /// recorded callers come in non-decreasing depth, nothing scheduled is
    /// more than one hop beyond the query handed out last, and no recorded
    /// caller is deeper than it. Each scheduled (file, symbol) pair is
    /// recorded in `visited` and scheduled once; every scheduled query past
    /// the first came with a recorded caller.
    pub open spec fn wf(self) -> bool {
        &&& 1 <= self.max_depth <= DEPTH_LIMIT
        &&& self.next <= self.queue@.len()
        &&& 1 <= self.queue@.len() <= self.callers@.len() + 1
        &&& self.callers@.len() <= MAX_TOTAL_CALLERS
        &&& self.next == 0 ==> self.callers@.len() == 0
        &&& forall|k: int| 0 <= k < self.queue@.len() ==> hop_is_consistent((#[trigger] self.queue@[k]).depth, self.queue@[k].via, self.max_depth)
        &&& forall|k: int| 0 <= k < self.callers@.len() ==> hop_is_consistent((#[trigger] self.callers@[k]).depth, self.callers@[k].via, self.max_depth)
        &&& queries_breadth_first(self.queue@)
        &&& callers_breadth_first(self.callers@)
        &&& self.next > 0 ==> forall|k: int|
            0 <= k < self.queue@.len() ==> (#[trigger] self.queue@[k]).depth <= self.queue@[self.next - 1].depth + 1
        &&& self.next > 0 ==> forall|k: int|
            0 <= k < self.callers@.len() ==> (#[trigger] self.callers@[k]).depth <= self.queue@[self.next - 1].depth
        &&& self.visited@.len() == self.queue@.len()
        &&& forall|k: int|
            0 <= k < self.queue@.len() ==> (#[trigger] self.visited@[k]).0@ == self.queue@[k].file@
                && self.visited@[k].1@ == self.queue@[k].symbol@
        &&& pairs_distinct(self.visited@)
    }

    /// Whether `q` is the query this search handed out last.
    pub open spec fn handed_out_last(self, q: CallerQuery) -> bool {
        self.next > 0 && self.queue@[self.next - 1] == q
    }

    pub open spec fn state(self) -> SearchState {
        SearchState { queue: self.queue@, visited: self.visited@, callers: self.callers@ }
    }

    /// A search for the callers of `start_symbol` in `start_file`, over
    /// `max_depth` hops (clamped to 1 through 3).
    pub fn new(start_symbol: &str, start_file: &str, max_depth: usize) -> (s: Self)
        ensures
            s.wf(),
            s.max_depth == clamp_depth(max_depth),
            s.next == 0,
            s.queue@.len() == 1,
            s.queue@[0].file@ == start_file@,
            s.queue@[0].symbol@ == start_symbol@,
            s.queue@[0].depth == 1,
            s.queue@[0].via is None,
            s.visited@.len() == 1,
            s.visited@[0].0@ == start_file@,
            s.visited@[0].1@ == start_symbol@,
            s.callers@.len() == 0,
    {
        let max_depth = if max_depth < 1 {
            1
        } else if max_depth > DEPTH_LIMIT {
            DEPTH_LIMIT
        } else {
            max_depth
        };
        let mut queue: Vec<CallerQuery> = Vec::new();
        queue.push(
            CallerQuery { file: start_file.to_owned(), symbol: start_symbol.to_owned(), depth: 1, via: None },
        );
        let mut visited: Vec<(String, String)> = Vec::new();
        visited.push((start_file.to_owned(), start_symbol.to_owned()));
        CallerSearch { queue, next: 0, visited, callers: Vec::new(), max_depth }
    }

    /// The next symbol to look up, or `None` when the queue is exhausted or
    /// the caller cap is reached.
    pub fn next_query(&mut self) -> (q: Option<CallerQuery>)
        requires
            old(self).wf(),
        ensures
            final(self).wf(),
            final(self).state() == old(self).state(),
            final(self).max_depth == old(self).max_depth,
            if old(self).callers@.len() >= MAX_TOTAL_CALLERS || old(self).next >= old(self).queue@.len() {
                q is None && final(self).next == old(self).next
            } else {
                q == Some(old(self).queue@[old(self).next as int]) && final(self).next == old(self).next + 1
            },
    {
        if self.callers.len() >= MAX_TOTAL_CALLERS || self.next >= self.queue.len() {
            return None;
        }
        let q = self.queue[self.next].clone();
        self.next = self.next + 1;
        Some(q)
    }

    /// Records the call sites found for `query`.
    pub fn record_callers(&mut self, query: &CallerQuery, found: &[CallSite], project: &ProjectIndex, modified: &Vec<String>)
        requires
            old(self).wf(),
            old(self).handed_out_last(*query),
        ensures
            final(self).wf(),
            final(self).next == old(self).next,
            final(self).max_depth == old(self).max_depth,
            final(self).state() == record_all(old(self).state(), old(self).max_depth, *query, found@, *project, modified@),
    {
        proof {
            assert(hop_is_consistent(self.queue@[self.next - 1].depth, self.queue@[self.next - 1].via, self.max_depth));
        }
        let mut i: usize = 0;
        while i < found.len()
            invariant
                0 <= i <= found@.len(),
                self.wf(),
                self.handed_out_last(*query),
                hop_is_consistent(query.depth, query.via, self.max_depth),
                self.next == old(self).next,
                self.max_depth == old(self).max_depth,
                self.state() == record_all(old(self).state(), old(self).max_depth, *query, found@.take(i as int), *project, modified@),
            decreases found@.len() - i,
        {
            assert(found@.take(i + 1).drop_last() =~= found@.take(i as int));
            assert(found@.take(i + 1).last() == found@[i as int]);
            let caller = &found[i];
            if self.callers.len() < MAX_TOTAL_CALLERS {
                let ghost st = self.state();
                self.callers.push(CallerWithRisk {
                    file: caller.file.clone(),
                    line: caller.line,
                    text: caller.text.clone(),
                    also_modified_in_pr: listed(modified, caller.file.as_str()),
                    depth: query.depth,
                    via: clone_opt(&query.via),
                });
                // Queue the enclosing function for the next depth level.
                if query.depth < self.max_depth {
                    if let Some(enc) = enclosing_function(project, caller.file.as_str(), caller.line) {
                        if !self.is_visited(enc.file.as_str(), enc.name.as_str()) {
                            let enc_name = enc.name.clone();
                            self.visited.push((enc.file.clone(), enc.name.clone()));
                            self.queue.push(CallerQuery {
                                file: enc.file,
                                symbol: enc.name,
                                depth: query.depth + 1,
                                via: Some(enc_name),
                            });
                            assert(self.queue@ =~= st.queue.push(self.queue@.last()));
                        }
                    }
                }
                assert(self.state() == record_one(st, old(self).max_depth, *query, *caller, *project, modified@));
            }
            i += 1;
        }
        assert(found@.take(i as int) =~= found@);
    }

    fn is_visited(&self, file: &str, name: &str) -> (b: bool)
        ensures
            b == visited_contains(self.visited@, file@, name@),
    {
        let mut k: usize = 0;
        while k < self.visited.len()
            invariant
                0 <= k <= self.visited@.len(),
                forall|j: int| 0 <= j < k ==> !((#[trigger] self.visited@[j]).0@ == file@ && self.visited@[j].1@ == name@),
            decreases self.visited@.len() - k,
        {
            if same_text(self.visited[k].0.as_str(), file) && same_text(self.visited[k].1.as_str(), name) {
                return true;
            }
            k += 1;
        }
        false
    }
}


/// Every caller of `cs` is flagged exactly when its file is one the PR
/// modified.
pub open spec fn flags_match(cs: Seq<CallerWithRisk>, modified: Seq<String>) -> bool {
    forall|k: int| 0 <= k < cs.len() ==> (#[trigger] cs[k]).also_modified_in_pr == path_listed(modified, cs[k].file@)
}

proof fn lemma_record_all_flags(
    st: SearchState,
    max_depth: usize,
    q: CallerQuery,
    cs: Seq<CallSite>,
    p: ProjectIndex,
    modified: Seq<String>,
)
    requires
        flags_match(st.callers, modified),
    ensures
        flags_match(record_all(st, max_depth, q, cs, p, modified).callers, modified),
    decreases cs.len(),
{
    if cs.len() > 0 {
        lemma_record_all_flags(st, max_depth, q, cs.drop_last(), p, modified);
        let prev = record_all(st, max_depth, q, cs.drop_last(), p, modified);
        let cur = record_all(st, max_depth, q, cs, p, modified);
        assert forall|k: int| 0 <= k < cur.callers.len() implies (#[trigger] cur.callers[k]).also_modified_in_pr
            == path_listed(modified, cur.callers[k].file@) by {
            if k < prev.callers.len() {
                assert(cur.callers[k] == prev.callers[k]);
            }
        }
    }
}

/// A well-formed search yields its callers breadth-first: their depths
/// never decrease along the list.
pub proof fn law_callers_breadth_first(s: CallerSearch)
    requires
        s.wf(),
    ensures
        forall|i: int, j: int| 0 <= i <= j < s.callers@.len() ==> (#[trigger] s.callers@[i]).depth <= (#[trigger] s.callers@[j]).depth,
{
}

/// A well-formed search schedules each (file, symbol) pair at most once,
/// so each is expanded at most once.
pub proof fn law_each_pair_expanded_once(s: CallerSearch)
    requires
        s.wf(),
    ensures
        forall|i: int, j: int|
            0 <= i < j < s.queue@.len() ==> !((#[trigger] s.queue@[i]).file@ == (#[trigger] s.queue@[j]).file@
                && s.queue@[i].symbol@ == s.queue@[j].symbol@),
{
    assert forall|i: int, j: int| 0 <= i < j < s.queue@.len() implies !((#[trigger] s.queue@[i]).file@
        == (#[trigger] s.queue@[j]).file@ && s.queue@[i].symbol@ == s.queue@[j].symbol@) by {
        assert(s.visited@[i].0@ == s.queue@[i].file@ && s.visited@[i].1@ == s.queue@[i].symbol@);
        assert(s.visited@[j].0@ == s.queue@[j].file@ && s.visited@[j].1@ == s.queue@[j].symbol@);
    }
}

/// `s` is the state of a search that starts at `start_symbol` in
/// `start_file`: that one query scheduled, no caller recorded.
pub open spec fn search_start(s: SearchState, start_symbol: Seq<char>, start_file: Seq<char>) -> bool {
    &&& s.queue.len() == 1
    &&& s.queue[0].file@ == start_file
    &&& s.queue[0].symbol@ == start_symbol
    &&& s.queue[0].depth == 1
    &&& s.queue[0].via is None
    &&& s.visited.len() == 1
    &&& s.visited[0].0@ == start_file
    &&& s.visited[0].1@ == start_symbol
    &&& s.callers.len() == 0
}

/// The search state after the queries handed out in order got the call
/// sites `founds` (the i-th query is the i-th one scheduled), starting from
/// `s0`.
pub open spec fn run_search(
    s0: SearchState,
    max_depth: usize,
    founds: Seq<Vec<CallSite>>,
    p: ProjectIndex,
    modified: Seq<String>,
) -> SearchState
    decreases founds.len(),
{
    if founds.len() == 0 {
        s0
    } else {
        let prev = run_search(s0, max_depth, founds.drop_last(), p, modified);
        record_all(prev, max_depth, prev.queue[founds.len() - 1], founds.last()@, p, modified)
    }
}

/// A search run from `s0` with the call sites `founds` has stopped: every
/// scheduled query was handed out, or the caller cap was reached.
pub open spec fn run_stopped(s0: SearchState, max_depth: usize, founds: Seq<Vec<CallSite>>, p: ProjectIndex, modified: Seq<String>) -> bool {
    let fin = run_search(s0, max_depth, founds, p, modified);
    fin.callers.len() >= MAX_TOTAL_CALLERS || founds.len() == fin.queue.len()
}

/// Each query handed out in a run from `s0`, the i-th being the i-th one
/// scheduled, got from `f` the call sites `founds[i]`.
pub open spec fn answered_by<F: Fn(&CallerQuery) -> Vec<CallSite>>(
    f: F,
    s0: SearchState,
    max_depth: usize,
    founds: Seq<Vec<CallSite>>,
    p: ProjectIndex,
    modified: Seq<String>,
) -> bool {
    forall|i: int|
        0 <= i < founds.len() ==> f.ensures(
            (&run_search(s0, max_depth, founds.take(i), p, modified).queue[i],),
            #[trigger] founds[i],
        )
}

proof fn lemma_run_search_push<F: Fn(&CallerQuery) -> Vec<CallSite>>(
    f: F,
    s0: SearchState,
    max_depth: usize,
    founds: Seq<Vec<CallSite>>,
    found: Vec<CallSite>,
    p: ProjectIndex,
    modified: Seq<String>,
)
    requires
        answered_by(f, s0, max_depth, founds, p, modified),
        f.ensures((&run_search(s0, max_depth, founds, p, modified).queue[founds.len() as int],), found),
    ensures
        answered_by(f, s0, max_depth, founds.push(found), p, modified),
        run_search(s0, max_depth, founds.push(found), p, modified) == record_all(
            run_search(s0, max_depth, founds, p, modified),
            max_depth,
            run_search(s0, max_depth, founds, p, modified).queue[founds.len() as int],
            found@,
            p,
            modified,
        ),
{
    let nf = founds.push(found);
    assert(nf.drop_last() =~= founds);
    assert(nf.take(founds.len() as int) =~= founds);
    assert forall|i: int| 0 <= i < nf.len() implies f.ensures(
        (&run_search(s0, max_depth, nf.take(i), p, modified).queue[i],),
        #[trigger] nf[i],
    ) by {
        if i < founds.len() {
            assert(nf.take(i) =~= founds.take(i));
            assert(nf[i] == founds[i]);
        }
    }
}

/// Breadth-first expansion of the callers of `start_symbol` in
/// `start_file` over up to `max_depth` hops (clamped to 1 through 3):
/// `find_callers` gives the call sites of one query (at most
/// `MAX_CALLERS_PER_LEVEL`, none when the lookup fails). Direct callers
/// have `depth=1, via=None`; callers of callers have `depth=2,
/// via=Some(intermediate_function_name)`, and so on; each caller is flagged
/// when the PR modified its file. The search ends: each (file, symbol)
/// pair is expanded at most once and at most `MAX_TOTAL_CALLERS` callers
/// are kept. The result is exactly the callers that the search records
/// when each query handed out, in order, gets what `find_callers` returned
/// for it, until the queue runs out or the cap is reached.
pub fn collect_callers_bfs<F: Fn(&CallerQuery) -> Vec<CallSite>>(
    base_project: &ProjectIndex,
    start_symbol: &str,
    start_file: &str,
    max_depth: usize,
    modified: &Vec<String>,
    find_callers: F,
) -> (r: Vec<CallerWithRisk>)
    requires
        forall|q: &CallerQuery| #[trigger] find_callers.requires((q,)),
    ensures
        r@.len() <= MAX_TOTAL_CALLERS,
        callers_breadth_first(r@),
        forall|k: int| 0 <= k < r@.len() ==> hop_is_consistent((#[trigger] r@[k]).depth, r@[k].via, clamp_depth(max_depth)),
        flags_match(r@, modified@),
        exists|s0: SearchState, founds: Seq<Vec<CallSite>>|
            {
                &&& search_start(s0, start_symbol@, start_file@)
                &&& #[trigger] answered_by(find_callers, s0, clamp_depth(max_depth), founds, *base_project, modified@)
                &&& run_stopped(s0, clamp_depth(max_depth), founds, *base_project, modified@)
                &&& r@ == run_search(s0, clamp_depth(max_depth), founds, *base_project, modified@).callers
            },
{
    let mut search = CallerSearch::new(start_symbol, start_file, max_depth);
    let ghost s0 = search.state();
    let ghost mut founds: Seq<Vec<CallSite>> = seq![];
    let ghost md = search.max_depth;
    loop
        invariant
            search.wf(),
            search.max_depth == clamp_depth(max_depth),
            md == search.max_depth,
            flags_match(search.callers@, modified@),
            forall|q: &CallerQuery| #[trigger] find_callers.requires((q,)),
            search_start(s0, start_symbol@, start_file@),
            search.next == founds.len(),
            search.state() == run_search(s0, md, founds, *base_project, modified@),
            answered_by(find_callers, s0, md, founds, *base_project, modified@),
        ensures
            search.state() == run_search(s0, md, founds, *base_project, modified@),
            run_stopped(s0, md, founds, *base_project, modified@),
        decreases MAX_TOTAL_CALLERS + 1 - search.next,
    {
        match search.next_query() {
            None => {
                break;
            },
            Some(q) => {
                let found = find_callers(&q);
                proof {
                    lemma_record_all_flags(search.state(), search.max_depth, q, found@, *base_project, modified@);
                }
                proof {
                    lemma_run_search_push(find_callers, s0, md, founds, found, *base_project, modified@);
                }
                search.record_callers(&q, found.as_slice(), base_project, modified);
                proof {
                    founds = founds.push(found);
                }
            },
        }
    }
    assert(answered_by(find_callers, s0, md, founds, *base_project, modified@));
    search.callers
}

// ---------------------------------------------------------------------------
// Safety reports
// ---------------------------------------------------------------------------

/// Deleted symbols and symbols whose signature changed can break callers.
pub open spec fn is_risky_spec(c: SymbolChange) -> bool {
    ||| c is Deleted
    ||| c matches SymbolChange::Modified { signature_changed: true, .. }
    ||| c matches SymbolChange::Moved { signature_changed: true, .. }
}

/// The body changed but the signature did not: a silent behavioral change.
pub open spec fn is_body_only_spec(c: SymbolChange) -> bool {
    ||| c matches SymbolChange::Modified { signature_changed: false, body_changed: true, .. }
    ||| c matches SymbolChange::Moved { signature_changed: false, body_changed: true, .. }
}

/// Whether `c` deletes a symbol or changes its signature.
pub fn is_risky_change(c: &SymbolChange) -> (b: bool)
    ensures
        b == is_risky_spec(*c),
{
    match c {
        SymbolChange::Deleted => true,
        SymbolChange::Modified { signature_changed, .. } => *signature_changed,
        SymbolChange::Moved { signature_changed, .. } => *signature_changed,
        SymbolChange::Added => false,
    }
}

/// Whether `c` changes a symbol's body but not its signature.
pub fn is_body_only_change(c: &SymbolChange) -> (b: bool)
    ensures
        b == is_body_only_spec(*c),
{
    match c {
        SymbolChange::Modified { signature_changed, body_changed, .. } => !*signature_changed && *body_changed,
        SymbolChange::Moved { signature_changed, body_changed, .. } => !*signature_changed && *body_changed,
        _ => false,
    }
}

/// The risk the safety report assigns to a change with untouched callers.
pub open spec fn safety_risk(c: SymbolChange) -> RiskLevel {
    if is_risky_spec(c) {
        RiskLevel::High
    } else if c matches SymbolChange::Modified { body_changed: true, .. } {
        RiskLevel::Medium
    } else {
        RiskLevel::Low
    }
}

/// The callers whose files the PR did not modify.
pub open spec fn unmodified(cs: Seq<CallerWithRisk>) -> Seq<CallerWithRisk> {
    cs.filter(|c: CallerWithRisk| !c.also_modified_in_pr)
}

/// What a safety issue holds.
pub struct IssueSpec {
    pub symbol: String,
    pub file: String,
    pub change: SymbolChange,
    pub unmodified: Seq<CallerWithRisk>,
    pub risk: RiskLevel,
}

pub open spec fn issue_is(i: SafetyIssue, s: IssueSpec) -> bool {
    &&& i.symbol == s.symbol
    &&& i.file == s.file
    &&& i.change == s.change
    &&& i.unmodified_callers@ == s.unmodified
    &&& i.risk == s.risk
}

/// The issues and the safe-change count for the first `n` symbol entries:
/// each selected entry (risky ones, or body-only ones for `body_only`) is
/// safe when all its callers are in modified files, and an issue listing
/// the other callers otherwise.
pub open spec fn safety_spec(
    ss: Seq<SymbolDiffEntry>,
    callers: Seq<Vec<CallerWithRisk>>,
    body_only: bool,
    n: int,
) -> (Seq<IssueSpec>, nat)
    decreases n,
{
    if n <= 0 {
        (seq![], 0)
    } else {
        let prev = safety_spec(ss, callers, body_only, n - 1);
        let e = ss[n - 1];
        let selected = if body_only {
            is_body_only_spec(e.change)
        } else {
            is_risky_spec(e.change)
        };
        if !selected {
            prev
        } else {
            let un = unmodified(callers[n - 1]@);
            if un.len() == 0 {
                (prev.0, prev.1 + 1)
            } else {
                (
                    prev.0.push(
                        IssueSpec {
                            symbol: e.name,
                            file: e.file,
                            change: e.change,
                            unmodified: un,
                            risk: if body_only {
                                RiskLevel::Medium
                            } else {
                                safety_risk(e.change)
                            },
                        },
                    ),
                    prev.1,
                )
            }
        }
    }
}

/// How many of the first `n` entries a report examines: the risky ones,
/// or the body-only ones for `body_only`.
pub open spec fn selected_count(ss: Seq<SymbolDiffEntry>, body_only: bool, n: int) -> nat
    decreases n,
{
    if n <= 0 {
        0
    } else {
        selected_count(ss, body_only, n - 1) + if (if body_only {
            is_body_only_spec(ss[n - 1].change)
        } else {
            is_risky_spec(ss[n - 1].change)
        }) {
            1nat
        } else {
            0nat
        }
    }
}

/// Every examined change is either an issue or safe; every issue has a
/// caller the PR left untouched; the safety report rates its issues high
/// and the body-change report rates them medium.
pub proof fn law_safety_report_partition(
    ss: Seq<SymbolDiffEntry>,
    callers: Seq<Vec<CallerWithRisk>>,
    body_only: bool,
    n: int,
)
    requires
        0 <= n <= ss.len(),
        n <= callers.len(),
    ensures
        ({
            let (issues, safe) = safety_spec(ss, callers, body_only, n);
            &&& issues.len() + safe == selected_count(ss, body_only, n)
            &&& forall|k: int| 0 <= k < issues.len() ==> (#[trigger] issues[k]).unmodified.len() > 0
            &&& forall|k: int|
                0 <= k < issues.len() ==> (#[trigger] issues[k]).risk == if body_only {
                    RiskLevel::Medium
                } else {
                    RiskLevel::High
                }
        }),
    decreases n,
{
    if n > 0 {
        law_safety_report_partition(ss, callers, body_only, n - 1);
        let prev = safety_spec(ss, callers, body_only, n - 1);
        let cur = safety_spec(ss, callers, body_only, n);
        assert forall|k: int| 0 <= k < cur.0.len() implies (#[trigger] cur.0[k]).unmodified.len() > 0 && cur.0[k].risk
            == if body_only {
            RiskLevel::Medium
        } else {
            RiskLevel::High
        } by {
            if k < prev.0.len() {
                assert(cur.0[k] == prev.0[k]);
            }
        }
    }
}

pub open spec fn report_is(r: SafetyReport, s: (Seq<IssueSpec>, nat)) -> bool {
    &&& r.issues@.len() == s.0.len()
    &&& forall|k: int| 0 <= k < s.0.len() ==> issue_is(#[trigger] r.issues@[k], s.0[k])
    &&& r.safe_changes_count == s.1
}

fn unmodified_callers(cs: &Vec<CallerWithRisk>) -> (r: Vec<CallerWithRisk>)
    ensures
        r@ == unmodified(cs@),
{
    let mut r: Vec<CallerWithRisk> = Vec::new();
    let mut i: usize = 0;
    while i < cs.len()
        invariant
            0 <= i <= cs@.len(),
            r@ == unmodified(cs@.take(i as int)),
        decreases cs@.len() - i,
    {
        proof {
            reveal_with_fuel(Seq::<_>::filter, 1);
        }
        assert(cs@.take(i + 1).drop_last() =~= cs@.take(i as int));
        if !cs[i].also_modified_in_pr {
            r.push(cs[i].clone());
        }
        i += 1;
    }
    assert(cs@.take(i as int) =~= cs@);
    r
}

fn safety_report(review_diff: &ReviewDiff, callers: &Vec<Vec<CallerWithRisk>>, body_only: bool) -> (r: SafetyReport)
    requires
        callers@.len() == review_diff.symbol_diffs@.len(),
    ensures
        report_is(r, safety_spec(review_diff.symbol_diffs@, callers@, body_only, review_diff.symbol_diffs@.len() as int)),
{
    let ghost ss = review_diff.symbol_diffs@;
    let mut issues: Vec<SafetyIssue> = Vec::new();
    let mut safe_count: usize = 0;
    let mut i: usize = 0;
    while i < review_diff.symbol_diffs.len()
        invariant
            0 <= i <= ss.len(),
            ss == review_diff.symbol_diffs@,
            callers@.len() == ss.len(),
            safe_count <= i,
            report_is(SafetyReport { issues, safe_changes_count: safe_count }, safety_spec(ss, callers@, body_only, i as int)),
        decreases ss.len() - i,
    {
        let sym_diff = &review_diff.symbol_diffs[i];
        let selected = if body_only {
            is_body_only_change(&sym_diff.change)
        } else {
            is_risky_change(&sym_diff.change)
        };
        if selected {
            let unmodified = unmodified_callers(&callers[i]);
            if unmodified.len() == 0 {
                safe_count += 1;
            } else {
                let risk = if body_only {
                    RiskLevel::Medium
                } else {
                    match &sym_diff.change {
                        SymbolChange::Deleted => RiskLevel::High,
                        SymbolChange::Modified { signature_changed: true, .. } => RiskLevel::High,
                        SymbolChange::Moved { signature_changed: true, .. } => RiskLevel::High,
                        SymbolChange::Modified { body_changed: true, .. } => RiskLevel::Medium,
                        _ => RiskLevel::Low,
                    }
                };
                let ghost prev = issues@;
                issues.push(SafetyIssue {
                    symbol: sym_diff.name.clone(),
                    file: sym_diff.file.clone(),
                    change: sym_diff.change.clone(),
                    unmodified_callers: unmodified,
                    risk,
                });
                assert forall|k: int| 0 <= k < prev.len() implies issues@[k] == prev[k] by {}
            }
        }
        i += 1;
    }
    SafetyReport { issues, safe_changes_count: safe_count }
}

/// Find all deleted or signature-changed symbols that have callers in files
/// NOT modified by this PR — potential breakage. `callers[k]` holds the
/// callers found (over the requested number of hops) for the k-th symbol
/// entry of the diff; entries that are not risky ignore theirs.
pub fn compute_safety(review_diff: &ReviewDiff, callers: &Vec<Vec<CallerWithRisk>>) -> (r: SafetyReport)
    requires
        callers@.len() == review_diff.symbol_diffs@.len(),
    ensures
        report_is(r, safety_spec(review_diff.symbol_diffs@, callers@, false, review_diff.symbol_diffs@.len() as int)),
{
    safety_report(review_diff, callers, false)
}

/// Find symbols whose body changed (but signature did NOT) and that have
/// callers in files NOT modified by this PR. These are silent behavioral
/// changes; their risk level is `Medium`. `callers` is laid out as for
/// `compute_safety`.
pub fn compute_body_safety(review_diff: &ReviewDiff, callers: &Vec<Vec<CallerWithRisk>>) -> (r: SafetyReport)
    requires
        callers@.len() == review_diff.symbol_diffs@.len(),
    ensures
        report_is(r, safety_spec(review_diff.symbol_diffs@, callers@, true, review_diff.symbol_diffs@.len() as int)),
{
    safety_report(review_diff, callers, true)
}

// ---------------------------------------------------------------------------
// Per-symbol impact
// ---------------------------------------------------------------------------

/// Index of the first entry for `name` in `file`, or -1.
pub open spec fn entry_index(ss: Seq<SymbolDiffEntry>, name: Seq<char>, file: Seq<char>) -> int
    decreases ss.len(),
{
    if ss.len() == 0 {
        -1
    } else if ss[0].name@ == name && ss[0].file@ == file {
        0
    } else {
        let r = entry_index(ss.drop_first(), name, file);
        if r < 0 {
            -1
        } else {
            r + 1
        }
    }
}

pub proof fn lemma_entry_index(ss: Seq<SymbolDiffEntry>, name: Seq<char>, file: Seq<char>)
    ensures
        -1 <= entry_index(ss, name, file) < ss.len(),
        entry_index(ss, name, file) >= 0 ==> ss[entry_index(ss, name, file)].name@ == name
            && ss[entry_index(ss, name, file)].file@ == file,
        forall|j: int|
            0 <= j < ss.len() && (entry_index(ss, name, file) < 0 || j < entry_index(ss, name, file))
                ==> !((#[trigger] ss[j]).name@ == name && ss[j].file@ == file),
    decreases ss.len(),
{
    if ss.len() > 0 && !(ss[0].name@ == name && ss[0].file@ == file) {
        lemma_entry_index(ss.drop_first(), name, file);
        assert forall|j: int|
            0 <= j < ss.len() && (entry_index(ss, name, file) < 0 || j < entry_index(ss, name, file))
                implies !((#[trigger] ss[j]).name@ == name && ss[j].file@ == file) by {
            if j > 0 {
                assert(ss[j] == ss.drop_first()[j - 1]);
            }
        }
    }
}

/// Index of the first entry of the diff for `symbol` in `file`.
pub fn find_symbol_entry(review_diff: &ReviewDiff, symbol: &str, file: &str) -> (r: Option<usize>)
    ensures
        match r {
            Some(k) => entry_index(review_diff.symbol_diffs@, symbol@, file@) == k,
            None => entry_index(review_diff.symbol_diffs@, symbol@, file@) < 0,
        },
{
    let ghost ss = review_diff.symbol_diffs@;
    let mut i: usize = 0;
    while i < review_diff.symbol_diffs.len()
        invariant
            0 <= i <= ss.len(),
            ss == review_diff.symbol_diffs@,
            forall|j: int| 0 <= j < i ==> !((#[trigger] ss[j]).name@ == symbol@ && ss[j].file@ == file@),
        decreases ss.len() - i,
    {
        let e = &review_diff.symbol_diffs[i];
        if same_text(e.name.as_str(), symbol) && same_text(e.file.as_str(), file) {
            proof {
                lemma_entry_index(ss, symbol@, file@);
            }
            return Some(i);
        }
        i += 1;
    }
    proof {
        lemma_entry_index(ss, symbol@, file@);
    }
    None
}

/// Whether the PR modifies file `f`.
pub open spec fn pr_modifies(d: ReviewDiff, f: Seq<char>) -> bool {
    exists|k: int| 0 <= k < d.file_diffs@.len() && (#[trigger] d.file_diffs@[k]).path@ == f
}

/// The risk of a change given how many of its callers the PR left untouched.
pub open spec fn impact_risk(c: SymbolChange, unmodified_count: nat) -> RiskLevel {
    if unmodified_count > 0 {
        if is_risky_spec(c) {
            RiskLevel::High
        } else if c matches SymbolChange::Modified { body_changed: true, .. } || c matches SymbolChange::Moved {
            body_changed: true,
            ..
        } {
            RiskLevel::Medium
        } else {
            RiskLevel::Low
        }
    } else {
        RiskLevel::Low
    }
}

pub open spec fn test_status(d: ReviewDiff, t: TestSite) -> TestWithStatus {
    TestWithStatus { name: t.name, file: t.file, line: t.line, also_modified_in_pr: pr_modifies(d, t.file@) }
}

/// Compute the blast radius for a specific changed symbol: all its callers in
/// the base branch (`base_callers`, found over the requested number of hops
/// with the PR's modified files marked), how many lie in files the PR did not
/// touch, and the tests found for it in the head branch, each marked when
/// the PR modified its file. `None` when the symbol is not in the diff.
pub fn compute_impact(
    review_diff: &ReviewDiff,
    symbol_name: &str,
    file: &str,
    base_callers: Vec<CallerWithRisk>,
    found_tests: &[TestSite],
) -> (r: Option<ImpactResult>)
    ensures
        ({
            let k = entry_index(review_diff.symbol_diffs@, symbol_name@, file@);
            match r {
                None => k < 0,
                Some(ir) => {
                    let e = review_diff.symbol_diffs@[k];
                    &&& k >= 0
                    &&& ir.symbol == e.name
                    &&& ir.file == e.file
                    &&& ir.change == e.change
                    &&& ir.base_callers@ == base_callers@
                    &&& ir.unmodified_callers_count == unmodified(base_callers@).len()
                    &&& ir.tests@ == found_tests@.map_values(|t: TestSite| test_status(*review_diff, t))
                    &&& ir.risk == impact_risk(e.change, unmodified(base_callers@).len())
                },
            }
        }),
{
    let k = match find_symbol_entry(review_diff, symbol_name, file) {
        Some(k) => k,
        None => return None,
    };
    proof {
        lemma_entry_index(review_diff.symbol_diffs@, symbol_name@, file@);
    }
    let sym_diff = &review_diff.symbol_diffs[k];
    let modified = modified_files(review_diff);
    let unmodified_count = unmodified_callers(&base_callers).len();

    let mut tests: Vec<TestWithStatus> = Vec::new();
    let mut i: usize = 0;
    while i < found_tests.len()
        invariant
            0 <= i <= found_tests@.len(),
            modified@ == review_diff.file_diffs@.map_values(|f: super::FileDiffEntry| f.path),
            tests@ == found_tests@.take(i as int).map_values(|t: TestSite| test_status(*review_diff, t)),
        decreases found_tests@.len() - i,
    {
        let t = &found_tests[i];
        let also = listed(&modified, t.file.as_str());
        proof {
            if path_listed(modified@, t.file@) {
                let j = choose|j: int| 0 <= j < modified@.len() && (#[trigger] modified@[j])@ == t.file@;
                assert(review_diff.file_diffs@[j].path@ == t.file@);
            }
            if pr_modifies(*review_diff, t.file@) {
                let j = choose|j: int| 0 <= j < review_diff.file_diffs@.len() && (#[trigger] review_diff.file_diffs@[j]).path@ == t.file@;
                assert(modified@[j]@ == t.file@);
            }
        }
        tests.push(TestWithStatus { name: t.name.clone(), file: t.file.clone(), line: t.line, also_modified_in_pr: also });
        assert(tests@ =~= found_tests@.take(i + 1).map_values(|t: TestSite| test_status(*review_diff, t)));
        i += 1;
    }
    assert(found_tests@.take(i as int) =~= found_tests@);

    let risk = if unmodified_count > 0 {
        match &sym_diff.change {
            SymbolChange::Deleted => RiskLevel::High,
            SymbolChange::Modified { signature_changed: true, .. } => RiskLevel::High,
            SymbolChange::Moved { signature_changed: true, .. } => RiskLevel::High,
            SymbolChange::Modified { body_changed: true, .. } => RiskLevel::Medium,
            SymbolChange::Moved { body_changed: true, .. } => RiskLevel::Medium,
            _ => RiskLevel::Low,
        }
    } else {
        RiskLevel::Low
    };

    Some(ImpactResult {
        symbol: sym_diff.name.clone(),
        file: sym_diff.file.clone(),
        change: sym_diff.change.clone(),
        base_callers,
        unmodified_callers_count: unmodified_count,
        tests,
        risk,
    })
}


// ---------------------------------------------------------------------------
// Test coverage
// ---------------------------------------------------------------------------

/// Whether a test of `ts` before position `n` is named `name`.
pub open spec fn name_seen(ts: Seq<TestSite>, n: int, name: Seq<char>) -> bool {
    exists|j: int| 0 <= j < n && (#[trigger] ts[j]).name@ == name
}

/// Number of distinct test names among the first `n` tests.
pub open spec fn distinct_names(ts: Seq<TestSite>, n: int) -> nat
    decreases n,
{
    if n <= 0 {
        0
    } else {
        distinct_names(ts, n - 1) + if name_seen(ts, n - 1, ts[n - 1].name@) {
            0nat
        } else {
            1nat
        }
    }
}

/// Coverage concerns added and modified symbols other than imports.
pub open spec fn coverage_selected(e: SymbolDiffEntry) -> bool {
    e.kind != SymbolKind::Import && (e.change is Added || e.change is Modified)
}

pub struct UncoveredSpec {
    pub symbol: String,
    pub file: String,
    pub kind: SymbolKind,
    pub change: Seq<char>,
}

/// Covered and uncovered symbols among the first `n` entries, given the
/// tests found for each entry.
pub open spec fn coverage_spec(ss: Seq<SymbolDiffEntry>, tests: Seq<Vec<TestSite>>, n: int) -> (Seq<CoveredSymbol>, Seq<UncoveredSpec>)
    decreases n,
{
    if n <= 0 {
        (seq![], seq![])
    } else {
        let prev = coverage_spec(ss, tests, n - 1);
        let e = ss[n - 1];
        if !coverage_selected(e) {
            prev
        } else {
            let count = distinct_names(tests[n - 1]@, tests[n - 1]@.len() as int);
            if count == 0 {
                (
                    prev.0,
                    prev.1.push(
                        UncoveredSpec {
                            symbol: e.name,
                            file: e.file,
                            kind: e.kind,
                            change: if e.change is Added {
                                "added"@
                            } else {
                                "modified"@
                            },
                        },
                    ),
                )
            } else {
                (
                    prev.0.push(
                        CoveredSymbol { symbol: e.name, file: e.file, kind: e.kind, test_count: count as usize },
                    ),
                    prev.1,
                )
            }
        }
    }
}

/// How many of the first `n` entries the coverage report concerns.
pub open spec fn coverage_count(ss: Seq<SymbolDiffEntry>, n: int) -> nat
    decreases n,
{
    if n <= 0 {
        0
    } else {
        coverage_count(ss, n - 1) + if coverage_selected(ss[n - 1]) {
            1nat
        } else {
            0nat
        }
    }
}

/// Every added or modified symbol (imports excepted) is either covered or
/// uncovered, and a covered one has at least one test.
pub proof fn law_coverage_partition(ss: Seq<SymbolDiffEntry>, tests: Seq<Vec<TestSite>>, n: int)
    requires
        0 <= n <= ss.len(),
        n <= tests.len(),
    ensures
        ({
            let (cov, unc) = coverage_spec(ss, tests, n);
            &&& cov.len() + unc.len() == coverage_count(ss, n)
            &&& forall|k: int| 0 <= k < cov.len() ==> (#[trigger] cov[k]).test_count > 0
        }),
    decreases n,
{
    if n > 0 {
        law_coverage_partition(ss, tests, n - 1);
        let prev = coverage_spec(ss, tests, n - 1);
        let cur = coverage_spec(ss, tests, n);
        lemma_distinct_names_bound(tests[n - 1]@, tests[n - 1]@.len() as int);
        assert(tests[n - 1]@.len() == tests[n - 1].len());
        assert forall|k: int| 0 <= k < cur.0.len() implies (#[trigger] cur.0[k]).test_count > 0 by {
            if k < prev.0.len() {
                assert(cur.0[k] == prev.0[k]);
            }
        }
    }
}

proof fn lemma_distinct_names_bound(ts: Seq<TestSite>, n: int)
    requires
        0 <= n <= ts.len(),
    ensures
        distinct_names(ts, n) <= n,
    decreases n,
{
    if n > 0 {
        lemma_distinct_names_bound(ts, n - 1);
    }
}

pub open spec fn uncovered_is(u: UncoveredSymbol, s: UncoveredSpec) -> bool {
    u.symbol == s.symbol && u.file == s.file && u.kind == s.kind && u.change@ == s.change
}

/// Number of distinct test names in `ts`.
fn count_distinct_names(ts: &Vec<TestSite>) -> (n: usize)
    ensures
        n == distinct_names(ts@, ts@.len() as int),
{
    let mut count: usize = 0;
    let mut i: usize = 0;
    while i < ts.len()
        invariant
            0 <= i <= ts@.len(),
            count == distinct_names(ts@, i as int),
            count <= i,
        decreases ts@.len() - i,
    {
        let mut seen = false;
        let mut j: usize = 0;
        while j < i
            invariant
                0 <= j <= i < ts@.len(),
                seen == name_seen(ts@, j as int, ts@[i as int].name@),
            decreases i - j,
        {
            if same_text(ts[j].name.as_str(), ts[i].name.as_str()) {
                seen = true;
            }
            j += 1;
        }
        if !seen {
            count += 1;
        }
        i += 1;
    }
    count
}

/// For each added or modified symbol in the PR (imports excepted),
/// determine whether tests exist for it in the head project: `tests[k]`
/// holds the tests found for the k-th symbol entry of the diff, and a
/// symbol counts as covered when they carry at least one name.
pub fn compute_test_coverage(review_diff: &ReviewDiff, tests: &Vec<Vec<TestSite>>) -> (r: TestCoverageReport)
    requires
        tests@.len() == review_diff.symbol_diffs@.len(),
    ensures
        ({
            let (cov, unc) = coverage_spec(review_diff.symbol_diffs@, tests@, review_diff.symbol_diffs@.len() as int);
            &&& r.covered@ == cov
            &&& r.uncovered@.len() == unc.len()
            &&& forall|k: int| 0 <= k < unc.len() ==> uncovered_is(#[trigger] r.uncovered@[k], unc[k])
            &&& r.coverage_ratio@ == decimal(cov.len()) + seq!['/'] + decimal(cov.len() + unc.len())
        }),
{
    let ghost ss = review_diff.symbol_diffs@;
    let mut covered: Vec<CoveredSymbol> = Vec::new();
    let mut uncovered: Vec<UncoveredSymbol> = Vec::new();
    let mut i: usize = 0;
    while i < review_diff.symbol_diffs.len()
        invariant
            0 <= i <= ss.len(),
            ss == review_diff.symbol_diffs@,
            tests@.len() == ss.len(),
            covered@.len() + uncovered@.len() <= i,
            covered@ == coverage_spec(ss, tests@, i as int).0,
            uncovered@.len() == coverage_spec(ss, tests@, i as int).1.len(),
            forall|k: int|
                0 <= k < uncovered@.len() ==> uncovered_is(#[trigger] uncovered@[k], coverage_spec(ss, tests@, i as int).1[k]),
        decreases ss.len() - i,
    {
        let sym_diff = &review_diff.symbol_diffs[i];
        let selected = sym_diff.kind != SymbolKind::Import && match &sym_diff.change {
            SymbolChange::Added | SymbolChange::Modified { .. } => true,
            _ => false,
        };
        if selected {
            let unique_count = count_distinct_names(&tests[i]);
            if unique_count == 0 {
                let change = match &sym_diff.change {
                    SymbolChange::Added => String::from_str("added"),
                    _ => String::from_str("modified"),
                };
                let ghost prev = uncovered@;
                uncovered.push(UncoveredSymbol {
                    symbol: sym_diff.name.clone(),
                    file: sym_diff.file.clone(),
                    kind: sym_diff.kind,
                    change,
                });
                assert forall|k: int| 0 <= k < prev.len() implies uncovered@[k] == prev[k] by {}
            } else {
                covered.push(CoveredSymbol {
                    symbol: sym_diff.name.clone(),
                    file: sym_diff.file.clone(),
                    kind: sym_diff.kind,
                    test_count: unique_count,
                });
            }
        }
        i += 1;
    }
    let total = covered.len() + uncovered.len();
    let mut coverage_ratio = String::new();
    push_decimal(&mut coverage_ratio, covered.len());
    push_char(&mut coverage_ratio, '/');
    push_decimal(&mut coverage_ratio, total);
    assert(coverage_ratio@ =~= decimal(covered@.len() as nat) + seq!['/'] + decimal(total as nat));
    TestCoverageReport { covered, uncovered, coverage_ratio }
}

} // verus!
