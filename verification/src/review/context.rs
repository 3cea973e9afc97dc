//! Per-file context bundles (patch, changed ranges, changed symbols, source
//! excerpts) and per-symbol before/after diffs.

use vstd::prelude::*;

use std::sync::Arc;

use crate::model::{find_symbol, Language, ProjectIndex, SymbolKind};
use crate::text::{
    decimal, find_char, find_char_from, lemma_find_char, lines, parse_usize, parse_usize_spec,
    push_char, push_decimal, same_text, split_lines, string_of,
};

use super::cache::{lookup, ReviewCache, ReviewCacheView};
use super::diff::{file_views, ReviewDiff};
use super::impact::{entry_index, find_symbol_entry, lemma_entry_index};
use super::{clone_opt, FileChangeStatus, FileDiffEntry, ReviewQueryError, SymbolChange, SymbolDiffEntry};

verus! {

// ---------------------------------------------------------------------------
// Public types
// ---------------------------------------------------------------------------

/// How a file changed, as far as a reader is concerned.
#[derive(Clone, Copy, Debug, PartialEq, Eq, Structural)]
pub enum ChangeType {
    NewFile,
    Modified,
    ModifiedDeletionsOnly,
    DeletedFile,
}

/// How much of a changed file's source a context bundle includes.
#[derive(Clone, Copy, Debug, PartialEq, Eq, Structural)]
pub enum ReadingStrategy {
    FullFile,
    ChangedRegionsWithContext,
    /// Nothing to read in the head (serialized as `none`).
    NoSource,
}

/// A hunk of the head file and the changed symbols it overlaps.
#[derive(Debug)]
pub struct ChangedRange {
    pub start: usize,
    pub end: usize,
    pub symbols: Vec<String>,
}

/// A changed symbol of a file, flattened for display.
#[derive(Debug)]
pub struct ContextSymbolEntry {
    pub name: String,
    pub kind: SymbolKind,
    pub line_range: (usize, usize),
    pub change: String,
    pub signature_changed: Option<bool>,
    pub old_signature: Option<String>,
    pub new_signature: Option<String>,
    pub body_changed: Option<bool>,
    pub old_file: Option<String>,
}

/// Numbered source lines `start_line..=end_line` of a file.
#[derive(Debug)]
pub struct SourceExcerpt {
    pub start_line: usize,
    pub end_line: usize,
    pub content: String,
}

/// A changed file with its patch, the symbols it touches and the source to read.
#[derive(Debug)]
pub struct FileContextResult {
    pub file: String,
    pub status: FileChangeStatus,
    pub old_path: Option<String>,
    pub language: Language,
    pub total_lines: usize,
    pub change_type: ChangeType,
    pub patch: String,
    pub changed_ranges: Vec<ChangedRange>,
    pub symbols: Vec<ContextSymbolEntry>,
    pub source_excerpts: Vec<SourceExcerpt>,
    pub reading_strategy: ReadingStrategy,
}

// ---------------------------------------------------------------------------
// Hunk headers
// ---------------------------------------------------------------------------

/// Index of the first space or `@` in `s`, or -1.
pub open spec fn find_space_or_at(s: Seq<char>) -> int
    decreases s.len(),
{
    if s.len() == 0 {
        -1
    } else if s[0] == ' ' || s[0] == '@' {
        0
    } else {
        let r = find_space_or_at(s.drop_first());
        if r < 0 {
            -1
        } else {
            r + 1
        }
    }
}

proof fn lemma_find_space_or_at(s: Seq<char>)
    ensures
        -1 <= find_space_or_at(s) < s.len(),
        find_space_or_at(s) >= 0 ==> (s[find_space_or_at(s)] == ' ' || s[find_space_or_at(s)] == '@'),
        forall|j: int|
            0 <= j < s.len() && (find_space_or_at(s) < 0 || j < find_space_or_at(s)) ==> !(#[trigger] s[j] == ' '
                || s[j] == '@'),
    decreases s.len(),
{
    if s.len() > 0 && !(s[0] == ' ' || s[0] == '@') {
        lemma_find_space_or_at(s.drop_first());
        assert forall|j: int|
            0 <= j < s.len() && (find_space_or_at(s) < 0 || j < find_space_or_at(s)) implies !(#[trigger] s[j]
                == ' ' || s[j] == '@') by {
            if j > 0 {
                assert(s[j] == s.drop_first()[j - 1]);
            }
        }
    }
}

/// The value of a number field, 0 when it does not parse.
pub open spec fn parse_or_zero(s: Seq<char>) -> nat {
    match parse_usize_spec(s) {
        Some(n) => n,
        None => 0,
    }
}

/// The head-side fields of a hunk header `@@ -a,b +start,count @@`: the
/// text after the first `+` up to the next space or `@`, read as
/// `start,count` or as a bare `start`. `None` for other lines.
pub open spec fn hunk_fields(line: Seq<char>) -> Option<(nat, Option<nat>)> {
    if !(line.len() >= 2 && line[0] == '@' && line[1] == '@') {
        None
    } else {
        let plus = find_char(line, '+');
        if plus < 0 {
            None
        } else {
            let rest = line.skip(plus + 1);
            let e = find_space_or_at(rest);
            let part = if e < 0 {
                rest
            } else {
                rest.take(e)
            };
            let comma = find_char(part, ',');
            if comma >= 0 {
                Some((parse_or_zero(part.take(comma)), Some(parse_or_zero(part.skip(comma + 1)))))
            } else {
                Some((parse_or_zero(part), None))
            }
        }
    }
}

/// The head-side line range (1-indexed, inclusive) of a hunk header; a
/// pure deletion (count 0) or an unparsable start has none.
pub open spec fn hunk_range(line: Seq<char>) -> Option<(usize, usize)> {
    match hunk_fields(line) {
        Some((start, Some(count))) => if start > 0 && count > 0 {
            Some((start as usize, (start + count - 1) as usize))
        } else {
            None
        },
        Some((start, None)) => if start > 0 {
            Some((start as usize, start as usize))
        } else {
            None
        },
        None => None,
    }
}

/// The end of a hunk's range is computed as `start + count - 1`; that sum
/// must fit in a `usize`.
pub open spec fn hunk_fits(line: Seq<char>) -> bool {
    match hunk_fields(line) {
        Some((start, Some(count))) => start > 0 && count > 0 ==> start + count <= usize::MAX,
        _ => true,
    }
}

pub open spec fn hunks_fit(patch: Seq<char>) -> bool {
    forall|k: int| 0 <= k < lines(patch).len() ==> hunk_fits(#[trigger] lines(patch)[k])
}

/// The head-side ranges of the hunk headers among `ls`, in order.
pub open spec fn hunk_ranges_of(ls: Seq<Seq<char>>) -> Seq<(usize, usize)>
    decreases ls.len(),
{
    if ls.len() == 0 {
        seq![]
    } else {
        let prev = hunk_ranges_of(ls.drop_last());
        match hunk_range(ls.last()) {
            Some(r) => prev.push(r),
            None => prev,
        }
    }
}

/// Every head-side hunk range is a non-empty range of 1-indexed lines.
pub proof fn law_hunk_ranges_nonempty(ls: Seq<Seq<char>>)
    requires
        forall|k: int| 0 <= k < ls.len() ==> hunk_fits(#[trigger] ls[k]),
    ensures
        forall|k: int| 0 <= k < hunk_ranges_of(ls).len() ==> 1 <= (#[trigger] hunk_ranges_of(ls)[k]).0 <= hunk_ranges_of(ls)[k].1,
    decreases ls.len(),
{
    if ls.len() > 0 {
        let init = ls.drop_last();
        assert forall|k: int| 0 <= k < init.len() implies hunk_fits(#[trigger] init[k]) by {
            assert(init[k] == ls[k]);
        }
        law_hunk_ranges_nonempty(init);
        assert(ls.last() == ls[ls.len() - 1]);
        let l = ls.last();
        assert(hunk_fits(l));
        match hunk_fields(l) {
            Some((start, Some(count))) => {
                if start > 0 && count > 0 {
                    assert(start + count <= usize::MAX);
                    assert(1 <= (start as usize) <= ((start + count - 1) as usize));
                }
            },
            Some((start, None)) => {
                if start > 0 {
                    assert(start <= usize::MAX);
                }
            },
            None => {},
        }
        let prev = hunk_ranges_of(init);
        let cur = hunk_ranges_of(ls);
        assert forall|k: int| 0 <= k < cur.len() implies 1 <= (#[trigger] cur[k]).0 <= cur[k].1 by {
            if k < prev.len() {
                assert(cur[k] == prev[k]);
            }
        }
    }
}

#[verifier::rlimit(40)]
fn hunk_range_of_line(line: &Vec<char>) -> (r: Option<(usize, usize)>)
    requires
        hunk_fits(line@),
    ensures
        r == hunk_range(line@),
{
    if !(line.len() >= 2 && line[0] == '@' && line[1] == '@') {
        return None;
    }
    let plus = match find_char_from(line, 0, '+') {
        Some(p) => p,
        None => {
            assert(line@.skip(0) =~= line@);
            return None;
        },
    };
    assert(line@.skip(0) =~= line@);
    proof {
        lemma_find_char(line@, '+');
    }
    let rest_start = plus + 1;
    let ghost rest = line@.skip(rest_start as int);
    // End of the head-side field: the next space or '@'.
    let mut end = rest_start;
    while end < line.len() && !(line[end] == ' ' || line[end] == '@')
        invariant
            rest_start <= end <= line@.len(),
            rest == line@.skip(rest_start as int),
            forall|j: int| rest_start <= j < end ==> !(#[trigger] line@[j] == ' ' || line@[j] == '@'),
        decreases line@.len() - end,
    {
        end += 1;
    }
    proof {
        lemma_find_space_or_at(rest);
        let e = find_space_or_at(rest);
        let k = end - rest_start;
        if end < line@.len() {
            assert(rest[k] == line@[end as int]);
            assert(line@[end as int] == ' ' || line@[end as int] == '@');
            assert(e >= 0 && e <= k);
            if e < k {
                assert(rest[e] == line@[rest_start + e]);
            }
            assert(e == k);
        } else {
            if e >= 0 {
                assert(rest[e] == line@[rest_start + e]);
            }
            assert(e < 0);
            assert(rest.len() == k);
        }
    }
    let ghost part = line@.subrange(rest_start as int, end as int);
    assert(part =~= (if find_space_or_at(rest) < 0 { rest } else { rest.take(find_space_or_at(rest)) }));
    let part_chars: Vec<char> = {
        let mut v: Vec<char> = Vec::new();
        let mut k = rest_start;
        while k < end
            invariant
                rest_start <= k <= end <= line@.len(),
                v@ == line@.subrange(rest_start as int, k as int),
            decreases end - k,
        {
            v.push(line[k]);
            assert(v@ =~= line@.subrange(rest_start as int, k + 1));
            k += 1;
        }
        v
    };
    assert(part_chars@ == part);
    let comma = find_char_from(&part_chars, 0, ',');
    assert(part_chars@.skip(0) =~= part_chars@);
    match comma {
        Some(c) => {
            proof {
                lemma_find_char(part, ',');
            }
            let start = match parse_usize(&part_chars, 0, c) {
                Some(n) => n,
                None => 0,
            };
            let count = match parse_usize(&part_chars, c + 1, part_chars.len()) {
                Some(n) => n,
                None => 0,
            };
            assert(part.take(c as int) =~= part_chars@.subrange(0, c as int));
            assert(part.skip(c + 1) =~= part_chars@.subrange(c + 1, part_chars@.len() as int));
            if start > 0 && count > 0 {
                Some((start, start + count - 1))
            } else {
                None
            }
        },
        None => {
            // "+N" with no comma — single line hunk.
            let start = match parse_usize(&part_chars, 0, part_chars.len()) {
                Some(n) => n,
                None => 0,
            };
            assert(part =~= part_chars@.subrange(0, part_chars@.len() as int));
            if start > 0 {
                Some((start, start))
            } else {
                None
            }
        },
    }
}

/// Parse `@@ -old_start,old_count +new_start,new_count @@` hunk headers.
/// Returns head-side line ranges (1-indexed, inclusive).
pub fn parse_hunk_ranges(patch: &str) -> (r: Vec<(usize, usize)>)
    requires
        hunks_fit(patch@),
    ensures
        r@ == hunk_ranges_of(lines(patch@)),
{
    let ls = split_lines(patch);
    let ghost all = lines(patch@);
    let mut ranges: Vec<(usize, usize)> = Vec::new();
    let mut i: usize = 0;
    while i < ls.len()
        invariant
            0 <= i <= ls@.len(),
            ls@.len() == all.len(),
            all == lines(patch@),
            hunks_fit(patch@),
            forall|k: int| 0 <= k < ls@.len() ==> (#[trigger] ls@[k])@ == all[k],
            ranges@ == hunk_ranges_of(all.take(i as int)),
        decreases ls@.len() - i,
    {
        assert(all.take(i + 1).drop_last() =~= all.take(i as int));
        assert(all.take(i + 1).last() == ls@[i as int]@);
        assert(hunk_fits(all[i as int]));
        if let Some(r) = hunk_range_of_line(&ls[i]) {
            ranges.push(r);
        }
        i += 1;
    }
    assert(all.take(i as int) =~= all);
    ranges
}

/// A line of a patch that adds text (not the `+++` file header).
pub open spec fn is_addition_line(l: Seq<char>) -> bool {
    l.len() > 0 && l[0] == '+' && !(l.len() >= 3 && l[1] == '+' && l[2] == '+')
}

/// A new file, a deleted file, or a modified (or renamed) file that the
/// patch adds lines to or only removes lines from.
pub open spec fn change_type_spec(status: FileChangeStatus, patch: Seq<char>) -> ChangeType {
    match status {
        FileChangeStatus::Added => ChangeType::NewFile,
        FileChangeStatus::Deleted => ChangeType::DeletedFile,
        _ => if exists|k: int| 0 <= k < lines(patch).len() && is_addition_line(#[trigger] lines(patch)[k]) {
            ChangeType::Modified
        } else {
            ChangeType::ModifiedDeletionsOnly
        },
    }
}

fn has_addition_line(patch: &str) -> (b: bool)
    ensures
        b == exists|k: int| 0 <= k < lines(patch@).len() && is_addition_line(#[trigger] lines(patch@)[k]),
{
    let ls = split_lines(patch);
    let ghost all = lines(patch@);
    let mut i: usize = 0;
    while i < ls.len()
        invariant
            0 <= i <= ls@.len(),
            ls@.len() == all.len(),
            all == lines(patch@),
            forall|k: int| 0 <= k < ls@.len() ==> (#[trigger] ls@[k])@ == all[k],
            forall|k: int| 0 <= k < i ==> !is_addition_line(#[trigger] all[k]),
        decreases ls@.len() - i,
    {
        let l = &ls[i];
        assert(l@ == all[i as int]);
        if l.len() > 0 && l[0] == '+' && !(l.len() >= 3 && l[1] == '+' && l[2] == '+') {
            assert(is_addition_line(lines(patch@)[i as int]));
            return true;
        }
        i += 1;
    }
    false
}

pub fn determine_change_type(status: &FileChangeStatus, patch: &str) -> (r: ChangeType)
    ensures
        r == change_type_spec(*status, patch@),
{
    match status {
        FileChangeStatus::Added => ChangeType::NewFile,
        FileChangeStatus::Deleted => ChangeType::DeletedFile,
        FileChangeStatus::Modified | FileChangeStatus::Renamed => {
            if has_addition_line(patch) {
                ChangeType::Modified
            } else {
                ChangeType::ModifiedDeletionsOnly
            }
        },
    }
}


// ---------------------------------------------------------------------------
// Excerpt windows
// ---------------------------------------------------------------------------

/// A hunk widened by `ctx` lines on both sides, clamped to `[1, total]`.
pub open spec fn expand(h: (usize, usize), ctx: usize, total: usize) -> (usize, usize) {
    let s = if h.0 >= ctx {
        h.0 - ctx
    } else {
        0
    };
    let e = h.1 + ctx;
    (if s < 1 {
        1usize
    } else {
        s as usize
    }, if e < total {
        e as usize
    } else {
        total
    })
}

/// `x` inserted into `sorted` after every window that starts no later.
pub open spec fn insert_by_start_spec(sorted: Seq<(usize, usize)>, x: (usize, usize)) -> Seq<(usize, usize)>
    decreases sorted.len(),
{
    if sorted.len() == 0 {
        seq![x]
    } else if sorted.last().0 <= x.0 {
        sorted.push(x)
    } else {
        insert_by_start_spec(sorted.drop_last(), x).push(sorted.last())
    }
}

/// Stable sort by start line.
pub open spec fn sort_by_start(s: Seq<(usize, usize)>) -> Seq<(usize, usize)>
    decreases s.len(),
{
    if s.len() == 0 {
        seq![]
    } else {
        insert_by_start_spec(sort_by_start(s.drop_last()), s.last())
    }
}

/// Windows merged from left to right: a window that starts at most one
/// line after the end of the previous merged window extends it.
pub open spec fn merge_windows(s: Seq<(usize, usize)>) -> Seq<(usize, usize)>
    decreases s.len(),
{
    if s.len() == 0 {
        seq![]
    } else {
        let m = merge_windows(s.drop_last());
        let w = s.last();
        if m.len() > 0 && w.0 <= m.last().1 + 1 {
            m.update(
                m.len() - 1,
                (m.last().0, if m.last().1 >= w.1 {
                    m.last().1
                } else {
                    w.1
                }),
            )
        } else {
            m.push(w)
        }
    }
}

/// The excerpt windows for a set of hunks: each hunk widened by
/// `context_lines` and clamped to the file, then sorted and merged.
pub open spec fn windows_spec(hunks: Seq<(usize, usize)>, context_lines: usize, total_lines: usize) -> Seq<(usize, usize)> {
    if hunks.len() == 0 || total_lines == 0 {
        seq![]
    } else {
        merge_windows(sort_by_start(hunks.map_values(|h: (usize, usize)| expand(h, context_lines, total_lines))))
    }
}

/// Each window ends more than one line before the next one begins.
pub open spec fn windows_separated(ws: Seq<(usize, usize)>) -> bool {
    forall|i: int, j: int| 0 <= i && j == i + 1 && j < ws.len() ==> #[trigger] ws[i].1 + 1 < #[trigger] ws[j].0
}

/// Every window starts at line 1 or later and ends by line `total`.
pub open spec fn windows_within(ws: Seq<(usize, usize)>, total: usize) -> bool {
    forall|k: int| 0 <= k < ws.len() ==> 1 <= (#[trigger] ws[k]).0 && ws[k].1 <= total
}

proof fn lemma_merge_separated(s: Seq<(usize, usize)>)
    ensures
        windows_separated(merge_windows(s)),
    decreases s.len(),
{
    if s.len() > 0 {
        lemma_merge_separated(s.drop_last());
        let m = merge_windows(s.drop_last());
        let r = merge_windows(s);
        assert forall|i: int, j: int| 0 <= i && j == i + 1 && j < r.len() implies #[trigger] r[i].1 + 1 < #[trigger] r[j].0 by {
            if j < m.len() - 1 || (j == m.len() - 1 && r.len() == m.len() + 1) {
                assert(r[i] == m[i]);
                assert(r[j] == m[j]);
            } else if j == m.len() - 1 {
                assert(r[i] == m[i]);
                assert(r[j].0 == m[j].0);
            } else {
                assert(r[i] == m[i]);
            }
        }
    }
}

proof fn lemma_merge_within(s: Seq<(usize, usize)>, total: usize)
    requires
        windows_within(s, total),
    ensures
        windows_within(merge_windows(s), total),
    decreases s.len(),
{
    if s.len() > 0 {
        assert(windows_within(s.drop_last(), total)) by {
            assert forall|k: int| 0 <= k < s.drop_last().len() implies 1 <= (#[trigger] s.drop_last()[k]).0
                && s.drop_last()[k].1 <= total by {
                assert(s.drop_last()[k] == s[k]);
            }
        }
        lemma_merge_within(s.drop_last(), total);
        assert(s.last() == s[s.len() - 1]);
    }
}

proof fn lemma_insert_within(sorted: Seq<(usize, usize)>, x: (usize, usize), total: usize)
    requires
        windows_within(sorted, total),
        1 <= x.0 && x.1 <= total,
    ensures
        windows_within(insert_by_start_spec(sorted, x), total),
    decreases sorted.len(),
{
    if sorted.len() > 0 && sorted.last().0 > x.0 {
        assert(windows_within(sorted.drop_last(), total)) by {
            assert forall|k: int| 0 <= k < sorted.drop_last().len() implies 1 <= (#[trigger] sorted.drop_last()[k]).0
                && sorted.drop_last()[k].1 <= total by {
                assert(sorted.drop_last()[k] == sorted[k]);
            }
        }
        lemma_insert_within(sorted.drop_last(), x, total);
        assert(sorted.last() == sorted[sorted.len() - 1]);
    }
}

proof fn lemma_sort_within(s: Seq<(usize, usize)>, total: usize)
    requires
        windows_within(s, total),
    ensures
        windows_within(sort_by_start(s), total),
    decreases s.len(),
{
    if s.len() > 0 {
        assert(windows_within(s.drop_last(), total)) by {
            assert forall|k: int| 0 <= k < s.drop_last().len() implies 1 <= (#[trigger] s.drop_last()[k]).0
                && s.drop_last()[k].1 <= total by {
                assert(s.drop_last()[k] == s[k]);
            }
        }
        lemma_sort_within(s.drop_last(), total);
        assert(s.last() == s[s.len() - 1]);
        lemma_insert_within(sort_by_start(s.drop_last()), s.last(), total);
    }
}

/// The excerpt windows of a file lie within it and are separated: merging
/// leaves no two windows that overlap or touch.
pub proof fn law_windows_separated_within_file(hunks: Seq<(usize, usize)>, context_lines: usize, total_lines: usize)
    ensures
        windows_separated(windows_spec(hunks, context_lines, total_lines)),
        windows_within(windows_spec(hunks, context_lines, total_lines), total_lines),
{
    if hunks.len() > 0 && total_lines > 0 {
        let ex = hunks.map_values(|h: (usize, usize)| expand(h, context_lines, total_lines));
        lemma_sort_within(ex, total_lines);
        lemma_merge_within(sort_by_start(ex), total_lines);
        lemma_merge_separated(sort_by_start(ex));
    }
}

fn insert_by_start(sorted: Vec<(usize, usize)>, x: (usize, usize)) -> (r: Vec<(usize, usize)>)
    ensures
        r@ == insert_by_start_spec(sorted@, x),
        forall|k: int| 0 <= k < r@.len() ==> (#[trigger] r@[k]) == x || sorted@.contains(r@[k]),
    decreases sorted@.len(),
{
    let mut sorted = sorted;
    let n = sorted.len();
    if n == 0 {
        sorted.push(x);
        assert(sorted@ =~= seq![x]);
        sorted
    } else if sorted[n - 1].0 <= x.0 {
        sorted.push(x);
        sorted
    } else {
        let ghost before = sorted@;
        let last = sorted.pop().unwrap();
        assert(sorted@ =~= before.drop_last());
        let ghost rest = sorted@;
        let mut r = insert_by_start(sorted, x);
        r.push(last);
        assert forall|k: int| 0 <= k < r@.len() implies (#[trigger] r@[k]) == x || before.contains(r@[k]) by {
            if k < r@.len() - 1 {
                if r@[k] != x {
                    let j = choose|j: int| 0 <= j < rest.len() && rest[j] == r@[k];
                    assert(before[j] == rest[j]);
                }
            } else {
                assert(before[before.len() - 1] == last);
            }
        }
        r
    }
}

/// Expand each hunk range by `context_lines` on both sides, clamp to
/// `[1, total_lines]`, then merge overlapping/adjacent windows.
pub fn expand_and_merge_ranges(hunk_ranges: &[(usize, usize)], context_lines: usize, total_lines: usize) -> (r: Vec<(usize, usize)>)
    requires
        forall|k: int| 0 <= k < hunk_ranges@.len() ==> (#[trigger] hunk_ranges@[k]).1 + context_lines <= usize::MAX,
    ensures
        r@ == windows_spec(hunk_ranges@, context_lines, total_lines),
{
    if hunk_ranges.len() == 0 || total_lines == 0 {
        return Vec::new();
    }
    let ghost expanded = hunk_ranges@.map_values(|h: (usize, usize)| expand(h, context_lines, total_lines));
    let mut sorted: Vec<(usize, usize)> = Vec::new();
    let mut i: usize = 0;
    while i < hunk_ranges.len()
        invariant
            0 <= i <= hunk_ranges@.len(),
            expanded == hunk_ranges@.map_values(|h: (usize, usize)| expand(h, context_lines, total_lines)),
            forall|k: int| 0 <= k < hunk_ranges@.len() ==> (#[trigger] hunk_ranges@[k]).1 + context_lines <= usize::MAX,
            sorted@ == sort_by_start(expanded.take(i as int)),
            forall|k: int| 0 <= k < sorted@.len() ==> (#[trigger] sorted@[k]).1 <= total_lines && sorted@[k].0 >= 1,
        decreases hunk_ranges@.len() - i,
    {
        let (start, end) = hunk_ranges[i];
        let new_start = if start >= context_lines { start - context_lines } else { 0 };
        let new_start = if new_start < 1 { 1 } else { new_start };
        let new_end = if end + context_lines < total_lines { end + context_lines } else { total_lines };
        assert(expanded.take(i + 1).drop_last() =~= expanded.take(i as int));
        assert(expanded.take(i + 1).last() == (new_start, new_end));
        sorted = insert_by_start(sorted, (new_start, new_end));
        i += 1;
    }
    assert(expanded.take(i as int) =~= expanded);

    let mut merged: Vec<(usize, usize)> = Vec::new();
    let mut j: usize = 0;
    while j < sorted.len()
        invariant
            0 <= j <= sorted@.len(),
            forall|k: int| 0 <= k < sorted@.len() ==> (#[trigger] sorted@[k]).1 <= total_lines && sorted@[k].0 >= 1,
            forall|k: int| 0 <= k < merged@.len() ==> (#[trigger] merged@[k]).1 <= total_lines,
            merged@ == merge_windows(sorted@.take(j as int)),
        decreases sorted@.len() - j,
    {
        let (start, end) = sorted[j];
        assert(sorted@.take(j + 1).drop_last() =~= sorted@.take(j as int));
        assert(sorted@.take(j + 1).last() == (start, end));
        let n = merged.len();
        // `start >= 1`, so this is `start <= last_end + 1` without overflow.
        if n > 0 && start - 1 <= merged[n - 1].1 {
            let (last_start, last_end) = merged[n - 1];
            let new_end = if last_end >= end { last_end } else { end };
            merged.set(n - 1, (last_start, new_end));
        } else {
            merged.push((start, end));
        }
        j += 1;
    }
    assert(sorted@.take(j as int) =~= sorted@);
    merged
}


// ---------------------------------------------------------------------------
// Changed symbols and ranges
// ---------------------------------------------------------------------------

/// The line range of a changed symbol: from the base snapshot for a deleted
/// symbol, from the head snapshot otherwise; `(0, 0)` when it is not there.
pub open spec fn symbol_line_range_spec(base: ProjectIndex, head: ProjectIndex, sym: SymbolDiffEntry, file: Seq<char>) -> (usize, usize) {
    let found = if sym.change is Deleted {
        find_symbol(base.symbols@, file, sym.name@)
    } else {
        find_symbol(head.symbols@, file, sym.name@)
    };
    match found {
        Some(s) => s.line_range,
        None => (0, 0),
    }
}

pub fn get_symbol_line_range(base_project: &ProjectIndex, head_project: &ProjectIndex, sym: &SymbolDiffEntry, file: &str) -> (r: (usize, usize))
    ensures
        r == symbol_line_range_spec(*base_project, *head_project, *sym, file@),
{
    let found = match &sym.change {
        SymbolChange::Deleted => base_project.get(file, sym.name.as_str()),
        _ => head_project.get(file, sym.name.as_str()),
    };
    match found {
        Some(s) => s.line_range,
        None => (0, 0),
    }
}

/// What a context entry holds for a changed symbol with the given line range.
pub open spec fn context_entry_is(c: ContextSymbolEntry, sym: SymbolDiffEntry, line_range: (usize, usize)) -> bool {
    &&& c.name == sym.name
    &&& c.kind == sym.kind
    &&& c.line_range == line_range
    &&& match sym.change {
        SymbolChange::Added => c.change@ == "added"@ && c.signature_changed is None && c.old_signature is None
            && c.new_signature is None && c.body_changed is None && c.old_file is None,
        SymbolChange::Deleted => c.change@ == "deleted"@ && c.signature_changed is None && c.old_signature is None
            && c.new_signature is None && c.body_changed is None && c.old_file is None,
        SymbolChange::Modified { signature_changed, old_signature, new_signature, body_changed } =>
            c.change@ == "modified"@ && c.signature_changed == Some(signature_changed) && c.old_signature == Some(
            old_signature,
        ) && c.new_signature == Some(new_signature) && c.body_changed == Some(body_changed) && c.old_file is None,
        SymbolChange::Moved { old_file, signature_changed, body_changed, .. } => c.change@ == "moved"@
            && c.signature_changed == Some(signature_changed) && c.old_signature is None && c.new_signature is None
            && c.body_changed == Some(body_changed) && c.old_file == Some(old_file),
    }
}

/// Flattens a changed symbol for the context bundle.
pub fn sym_to_context_entry(sym: &SymbolDiffEntry, line_range: (usize, usize)) -> (r: ContextSymbolEntry)
    ensures
        context_entry_is(r, *sym, line_range),
{
    let (change, signature_changed, old_signature, new_signature, body_changed, old_file) = match &sym.change {
        SymbolChange::Added => (String::from_str("added"), None, None, None, None, None),
        SymbolChange::Deleted => (String::from_str("deleted"), None, None, None, None, None),
        SymbolChange::Modified { signature_changed, old_signature, new_signature, body_changed } => (
            String::from_str("modified"),
            Some(*signature_changed),
            Some(old_signature.clone()),
            Some(new_signature.clone()),
            Some(*body_changed),
            None,
        ),
        SymbolChange::Moved { old_file, signature_changed, body_changed, .. } => (
            String::from_str("moved"),
            Some(*signature_changed),
            None,
            None,
            Some(*body_changed),
            Some(old_file.clone()),
        ),
    };
    ContextSymbolEntry {
        name: sym.name.clone(),
        kind: sym.kind,
        line_range,
        change,
        signature_changed,
        old_signature,
        new_signature,
        body_changed,
        old_file,
    }
}

/// A symbol with a known (nonzero) line range that intersects the hunk.
pub open spec fn overlaps(c: ContextSymbolEntry, hunk: (usize, usize)) -> bool {
    let (s, e) = c.line_range;
    s > 0 && e > 0 && s <= hunk.1 && e >= hunk.0
}

/// Names of the symbols of `cs` overlapping `hunk`, in order.
pub open spec fn overlapping_names(cs: Seq<ContextSymbolEntry>, hunk: (usize, usize)) -> Seq<String>
    decreases cs.len(),
{
    if cs.len() == 0 {
        seq![]
    } else {
        let prev = overlapping_names(cs.drop_last(), hunk);
        if overlaps(cs.last(), hunk) {
            prev.push(cs.last().name)
        } else {
            prev
        }
    }
}

/// One changed range per hunk, naming the symbols it overlaps.
pub open spec fn changed_ranges_are(r: Seq<ChangedRange>, hunks: Seq<(usize, usize)>, cs: Seq<ContextSymbolEntry>) -> bool {
    &&& r.len() == hunks.len()
    &&& forall|k: int|
        0 <= k < r.len() ==> (#[trigger] r[k]).start == hunks[k].0 && r[k].end == hunks[k].1 && r[k].symbols@
            == overlapping_names(cs, hunks[k])
}

pub fn build_changed_ranges(hunk_ranges: &[(usize, usize)], symbols: &[ContextSymbolEntry]) -> (r: Vec<ChangedRange>)
    ensures
        changed_ranges_are(r@, hunk_ranges@, symbols@),
{
    let mut out: Vec<ChangedRange> = Vec::new();
    let mut k: usize = 0;
    while k < hunk_ranges.len()
        invariant
            0 <= k <= hunk_ranges@.len(),
            changed_ranges_are(out@, hunk_ranges@.take(k as int), symbols@),
        decreases hunk_ranges@.len() - k,
    {
        let (hunk_start, hunk_end) = hunk_ranges[k];
        let mut names: Vec<String> = Vec::new();
        let mut j: usize = 0;
        while j < symbols.len()
            invariant
                0 <= j <= symbols@.len(),
                names@ == overlapping_names(symbols@.take(j as int), (hunk_start, hunk_end)),
            decreases symbols@.len() - j,
        {
            assert(symbols@.take(j + 1).drop_last() =~= symbols@.take(j as int));
            let (sym_start, sym_end) = symbols[j].line_range;
            if sym_start > 0 && sym_end > 0 && sym_start <= hunk_end && sym_end >= hunk_start {
                names.push(symbols[j].name.clone());
            }
            j += 1;
        }
        assert(symbols@.take(j as int) =~= symbols@);
        let ghost prev = out@;
        out.push(ChangedRange { start: hunk_start, end: hunk_end, symbols: names });
        assert forall|q: int| 0 <= q < prev.len() implies out@[q] == prev[q] by {}
        assert(hunk_ranges@.take(k + 1)[k as int] == hunk_ranges@[k as int]);
        assert forall|q: int| 0 <= q < k implies hunk_ranges@.take(k + 1)[q] == hunk_ranges@.take(k as int)[q] by {}
        k += 1;
    }
    assert(hunk_ranges@.take(k as int) =~= hunk_ranges@);
    out
}

// ---------------------------------------------------------------------------
// Source excerpts
// ---------------------------------------------------------------------------

/// The characters of each string.
pub open spec fn string_views(s: Seq<String>) -> Seq<Seq<char>> {
    s.map_values(|x: String| x@)
}

/// `n` right-aligned in a field of six characters (`{:>6}`).
pub open spec fn padded_number(n: nat) -> Seq<char> {
    let d = decimal(n);
    if d.len() < 6 {
        Seq::new((6 - d.len()) as nat, |i: int| ' ') + d
    } else {
        d
    }
}

/// A numbered source line: `{:>6} │ {line}`.
pub open spec fn excerpt_line(n: nat, line: Seq<char>) -> Seq<char> {
    padded_number(n) + seq![' ', '\u{2502}', ' '] + line
}

/// Lines `a..=b` (1-indexed) of `lines`, numbered and joined by newlines.
pub open spec fn excerpt_text(lines: Seq<Seq<char>>, a: int, b: int) -> Seq<char>
    decreases b - a,
{
    if b < a {
        seq![]
    } else if b == a {
        excerpt_line(a as nat, lines[a - 1])
    } else {
        excerpt_text(lines, a, b - 1) + seq!['\n'] + excerpt_line(b as nat, lines[b - 1])
    }
}

/// The excerpt for lines `start..=end` clamped to the file.
pub open spec fn excerpt_is(x: SourceExcerpt, lines: Seq<Seq<char>>, start: usize, end: usize) -> bool {
    let a = if start >= 1 {
        start as int
    } else {
        1
    };
    let b = if end <= lines.len() {
        end as int
    } else {
        lines.len() as int
    };
    &&& x.start_line == a
    &&& x.end_line == b
    &&& x.content@ == excerpt_text(lines, a, b)
}

fn push_excerpt_line(content: &mut String, n: usize, line: &String)
    ensures
        final(content)@ == old(content)@ + excerpt_line(n as nat, line@),
{
    let mut digits = String::new();
    push_decimal(&mut digits, n);
    let width = digits.as_str().unicode_len();
    let ghost before = content@;
    let mut pad: usize = 0;
    if width < 6 {
        while pad < 6 - width
            invariant
                width < 6,
                pad <= 6 - width,
                content@ == before + Seq::new(pad as nat, |i: int| ' '),
            decreases 6 - width - pad,
        {
            push_char(content, ' ');
            assert(content@ =~= before + Seq::new((pad + 1) as nat, |i: int| ' '));
            pad += 1;
        }
    }
    let ghost padded = content@;
    content.append(digits.as_str());
    push_char(content, ' ');
    push_char(content, '\u{2502}');
    push_char(content, ' ');
    content.append(line.as_str());
    assert(digits@ == decimal(n as nat));
    if width < 6 {
        assert(padded == before + Seq::new((6 - decimal(n as nat).len()) as nat, |i: int| ' '));
    } else {
        assert(padded =~= before);
    }
    assert(content@ =~= before + excerpt_line(n as nat, line@));
}

/// Build a source excerpt with line numbers matching the peek format.
/// `start` and `end` are 1-indexed, inclusive.
pub fn build_excerpt(lines: &[String], start: usize, end: usize) -> (r: SourceExcerpt)
    ensures
        excerpt_is(r, string_views(lines@), start, end),
{
    let ghost lv = string_views(lines@);
    let actual_start = if start >= 1 { start } else { 1 };
    let actual_end = if end <= lines.len() { end } else { lines.len() };
    let mut content = String::new();
    if actual_start <= actual_end {
        // `i` is the 0-based index of the next line to add.
        let mut i = actual_start - 1;
        while i < actual_end
            invariant
                1 <= actual_start <= actual_end <= lines@.len(),
                actual_start - 1 <= i <= actual_end,
                lv == string_views(lines@),
                content@ == excerpt_text(lv, actual_start as int, i as int),
            decreases actual_end - i,
        {
            if i + 1 > actual_start {
                push_char(&mut content, '\n');
            }
            assert(lv[i as int] == lines@[i as int]@);
            push_excerpt_line(&mut content, i + 1, &lines[i]);
            i += 1;
        }
    }
    SourceExcerpt { start_line: actual_start, end_line: actual_end, content }
}


// ---------------------------------------------------------------------------
// File context bundle
// ---------------------------------------------------------------------------

/// Index of the first file entry for `path`, or -1.
pub open spec fn file_entry_index(fs: Seq<FileDiffEntry>, path: Seq<char>) -> int
    decreases fs.len(),
{
    if fs.len() == 0 {
        -1
    } else if fs[0].path@ == path {
        0
    } else {
        let r = file_entry_index(fs.drop_first(), path);
        if r < 0 {
            -1
        } else {
            r + 1
        }
    }
}

pub proof fn lemma_file_entry_index(fs: Seq<FileDiffEntry>, path: Seq<char>)
    ensures
        -1 <= file_entry_index(fs, path) < fs.len(),
        file_entry_index(fs, path) >= 0 ==> fs[file_entry_index(fs, path)].path@ == path,
        forall|j: int|
            0 <= j < fs.len() && (file_entry_index(fs, path) < 0 || j < file_entry_index(fs, path))
                ==> (#[trigger] fs[j]).path@ != path,
    decreases fs.len(),
{
    if fs.len() > 0 && fs[0].path@ != path {
        lemma_file_entry_index(fs.drop_first(), path);
        assert forall|j: int|
            0 <= j < fs.len() && (file_entry_index(fs, path) < 0 || j < file_entry_index(fs, path))
                implies (#[trigger] fs[j]).path@ != path by {
            if j > 0 {
                assert(fs[j] == fs.drop_first()[j - 1]);
            }
        }
    }
}

/// Index of the first changed-file entry for `file`.
pub fn find_file_entry(review_diff: &ReviewDiff, file: &str) -> (r: Option<usize>)
    ensures
        match r {
            Some(k) => file_entry_index(review_diff.file_diffs@, file@) == k,
            None => file_entry_index(review_diff.file_diffs@, file@) < 0,
        },
{
    let ghost fs = review_diff.file_diffs@;
    proof {
        lemma_file_entry_index(fs, file@);
    }
    let mut i: usize = 0;
    while i < review_diff.file_diffs.len()
        invariant
            0 <= i <= fs.len(),
            fs == review_diff.file_diffs@,
            forall|j: int| 0 <= j < i ==> (#[trigger] fs[j]).path@ != file@,
        decreases fs.len() - i,
    {
        if same_text(review_diff.file_diffs[i].path.as_str(), file) {
            proof {
                lemma_file_entry_index(fs, file@);
            }
            return Some(i);
        }
        i += 1;
    }
    proof {
        lemma_file_entry_index(fs, file@);
    }
    None
}

/// Deleted files and deletion-only changes are read from the base snapshot.
pub open spec fn reads_base(ct: ChangeType) -> bool {
    ct is DeletedFile || ct is ModifiedDeletionsOnly
}

/// Nothing to read for deletions, the whole file for a new file, and for a
/// modified file the whole file when it is short enough (or no hunk was
/// found), the changed regions otherwise.
pub open spec fn strategy_spec(ct: ChangeType, total_lines: usize, max_full_file_lines: usize, no_hunks: bool) -> ReadingStrategy {
    if reads_base(ct) {
        ReadingStrategy::NoSource
    } else if ct is NewFile {
        ReadingStrategy::FullFile
    } else if total_lines <= max_full_file_lines || no_hunks {
        ReadingStrategy::FullFile
    } else {
        ReadingStrategy::ChangedRegionsWithContext
    }
}

/// The changed symbols of `file`, in diff order.
pub open spec fn file_symbols(ss: Seq<SymbolDiffEntry>, file: Seq<char>) -> Seq<SymbolDiffEntry> {
    ss.filter(|e: SymbolDiffEntry| e.file@ == file)
}

/// Lines of the read source, as the bundle counts them.
pub open spec fn source_line_count(ct: ChangeType, source_text: Option<&str>) -> nat {
    match source_text {
        Some(t) => lines(t@).len(),
        None => 0,
    }
}

/// The excerpts of a bundle: the whole file, one window per merged region,
/// or none.
pub open spec fn excerpts_are(
    xs: Seq<SourceExcerpt>,
    strategy: ReadingStrategy,
    src: Seq<Seq<char>>,
    total: usize,
    hunks: Seq<(usize, usize)>,
    context_lines: usize,
) -> bool {
    match strategy {
        ReadingStrategy::FullFile => xs.len() == 1 && excerpt_is(xs[0], src, 1, total),
        ReadingStrategy::ChangedRegionsWithContext => {
            let ws = windows_spec(hunks, context_lines, total);
            &&& xs.len() == ws.len()
            &&& forall|k: int| 0 <= k < ws.len() ==> excerpt_is(#[trigger] xs[k], src, ws[k].0, ws[k].1)
        },
        ReadingStrategy::NoSource => xs.len() == 0,
    }
}

/// Whether the hunks of `patch`, widened by `context_lines`, fit in a
/// `usize`.
pub open spec fn context_fits(patch: Seq<char>, context_lines: usize) -> bool {
    &&& hunks_fit(patch)
    &&& forall|k: int|
        0 <= k < hunk_ranges_of(lines(patch)).len() ==> (#[trigger] hunk_ranges_of(lines(patch))[k]).1
            + context_lines <= usize::MAX
}

/// `r` is the context bundle of `file` (or the error) that the arguments
/// give, as `compute_file_context` describes it.
pub open spec fn file_context_is(
    r: Result<FileContextResult, ReviewQueryError>,
    review_diff: ReviewDiff,
    base_project: ProjectIndex,
    head_project: ProjectIndex,
    file: Seq<char>,
    patch: Seq<char>,
    source_text: Option<&str>,
    context_lines: usize,
    max_full_file_lines: usize,
) -> bool {
    let idx = file_entry_index(review_diff.file_diffs@, file);
    let fe = review_diff.file_diffs@[idx];
    let ct = change_type_spec(fe.status, patch);
    let hunks = hunk_ranges_of(lines(patch));
    let fsyms = file_symbols(review_diff.symbol_diffs@, file);
    match r {
        Err(e) => {
            ||| idx < 0 && (e matches ReviewQueryError::FileNotInDiff { file: f } && f@ == file)
            ||| idx >= 0 && !reads_base(ct) && source_text is None && (
            e matches ReviewQueryError::SourceUnreadable { file: f } && f@ == file)
        },
        Ok(fc) => {
            let total = source_line_count(ct, source_text);
            &&& idx >= 0
            &&& (!reads_base(ct) ==> source_text is Some)
            &&& fc.file@ == file
            &&& fc.status == fe.status
            &&& fc.old_path == fe.old_path
            &&& fc.language == fe.language
            &&& fc.change_type == ct
            &&& fc.patch@ == patch
            &&& fc.total_lines == total
            &&& fc.symbols@.len() == fsyms.len()
            &&& forall|k: int|
                0 <= k < fsyms.len() ==> context_entry_is(
                    #[trigger] fc.symbols@[k],
                    fsyms[k],
                    symbol_line_range_spec(base_project, head_project, fsyms[k], file),
                )
            &&& changed_ranges_are(fc.changed_ranges@, hunks, fc.symbols@)
            &&& fc.reading_strategy == strategy_spec(ct, fc.total_lines, max_full_file_lines, hunks.len() == 0)
            &&& excerpts_are(
                fc.source_excerpts@,
                fc.reading_strategy,
                lines(source_text->0@),
                fc.total_lines,
                hunks,
                context_lines,
            )
        },
    }
}

/// The context bundle of a changed file. `patch` is the file's unified
/// diff; `source_text` is the file as read for its change type (the base
/// version, under its old path for a rename, for deletions; the head
/// version otherwise), `None` when it could not be read. Fails when the
/// file is not in the diff, or when the head version was needed and could
/// not be read.
pub fn compute_file_context(
    review_diff: &ReviewDiff,
    base_project: &ProjectIndex,
    head_project: &ProjectIndex,
    file: &str,
    patch: &str,
    source_text: Option<&str>,
    context_lines: usize,
    max_full_file_lines: usize,
) -> (r: Result<FileContextResult, ReviewQueryError>)
    requires
        context_fits(patch@, context_lines),
    ensures
        file_context_is(
            r,
            *review_diff,
            *base_project,
            *head_project,
            file@,
            patch@,
            source_text,
            context_lines,
            max_full_file_lines,
        ),
{
    let idx = match find_file_entry(review_diff, file) {
        Some(k) => k,
        None => return Err(ReviewQueryError::FileNotInDiff { file: file.to_owned() }),
    };
    proof {
        lemma_file_entry_index(review_diff.file_diffs@, file@);
    }
    let file_entry = &review_diff.file_diffs[idx];
    let old_path = clone_opt(&file_entry.old_path);
    let language = file_entry.language;
    let status = file_entry.status;

    let change_type = determine_change_type(&status, patch);
    let base_side = match change_type {
        ChangeType::DeletedFile | ChangeType::ModifiedDeletionsOnly => true,
        _ => false,
    };

    // Source lines (only kept for files read from the head).
    let (total_lines, source_lines): (usize, Vec<String>) = if base_side {
        let count = match source_text {
            Some(t) => split_lines(t).len(),
            None => 0,
        };
        (count, Vec::new())
    } else {
        match source_text {
            None => return Err(ReviewQueryError::SourceUnreadable { file: file.to_owned() }),
            Some(t) => {
                let ls = split_lines(t);
                let mut strings: Vec<String> = Vec::new();
                let mut i: usize = 0;
                while i < ls.len()
                    invariant
                        0 <= i <= ls@.len(),
                        strings@.len() == i,
                        forall|k: int| 0 <= k < i ==> (#[trigger] strings@[k])@ == ls@[k]@,
                    decreases ls@.len() - i,
                {
                    strings.push(string_of(&ls[i], 0, ls[i].len()));
                    assert(ls@[i as int]@.subrange(0, ls@[i as int]@.len() as int) =~= ls@[i as int]@);
                    i += 1;
                }
                (ls.len(), strings)
            },
        }
    };
    assert(!base_side ==> string_views(source_lines@) =~= lines(source_text->0@));

    let hunk_ranges = parse_hunk_ranges(patch);

    // Context entries for the diff's symbols of this file.
    let ghost ss = review_diff.symbol_diffs@;
    let mut context_symbols: Vec<ContextSymbolEntry> = Vec::new();
    let ghost mut fsyms: Seq<SymbolDiffEntry> = seq![];
    let mut i: usize = 0;
    while i < review_diff.symbol_diffs.len()
        invariant
            0 <= i <= ss.len(),
            ss == review_diff.symbol_diffs@,
            fsyms == file_symbols(ss.take(i as int), file@),
            context_symbols@.len() == fsyms.len(),
            forall|k: int|
                0 <= k < fsyms.len() ==> context_entry_is(
                    #[trigger] context_symbols@[k],
                    fsyms[k],
                    symbol_line_range_spec(*base_project, *head_project, fsyms[k], file@),
                ),
        decreases ss.len() - i,
    {
        proof {
            reveal_with_fuel(Seq::<_>::filter, 1);
        }
        assert(ss.take(i + 1).drop_last() =~= ss.take(i as int));
        let sym = &review_diff.symbol_diffs[i];
        if same_text(sym.file.as_str(), file) {
            let line_range = get_symbol_line_range(base_project, head_project, sym, file);
            let ghost prev = context_symbols@;
            context_symbols.push(sym_to_context_entry(sym, line_range));
            proof {
                fsyms = fsyms.push(*sym);
            }
            assert forall|k: int| 0 <= k < prev.len() implies context_symbols@[k] == prev[k] by {}
        }
        i += 1;
    }
    assert(ss.take(i as int) =~= ss);

    let changed_ranges = build_changed_ranges(hunk_ranges.as_slice(), context_symbols.as_slice());

    let reading_strategy = if base_side {
        ReadingStrategy::NoSource
    } else {
        match change_type {
            ChangeType::NewFile => ReadingStrategy::FullFile,
            _ => if total_lines <= max_full_file_lines || hunk_ranges.len() == 0 {
                ReadingStrategy::FullFile
            } else {
                ReadingStrategy::ChangedRegionsWithContext
            },
        }
    };

    let source_excerpts: Vec<SourceExcerpt> = match reading_strategy {
        ReadingStrategy::FullFile => {
            let mut v: Vec<SourceExcerpt> = Vec::new();
            v.push(build_excerpt(source_lines.as_slice(), 1, total_lines));
            v
        },
        ReadingStrategy::ChangedRegionsWithContext => {
            let windows = expand_and_merge_ranges(hunk_ranges.as_slice(), context_lines, total_lines);
            let mut v: Vec<SourceExcerpt> = Vec::new();
            let mut k: usize = 0;
            while k < windows.len()
                invariant
                    0 <= k <= windows@.len(),
                    v@.len() == k,
                    forall|q: int|
                        0 <= q < k ==> excerpt_is(#[trigger] v@[q], string_views(source_lines@), windows@[q].0, windows@[q].1),
                decreases windows@.len() - k,
            {
                let (ws, we) = windows[k];
                let ghost prev = v@;
                v.push(build_excerpt(source_lines.as_slice(), ws, we));
                assert forall|q: int| 0 <= q < k implies v@[q] == prev[q] by {}
                k += 1;
            }
            v
        },
        ReadingStrategy::NoSource => Vec::new(),
    };

    Ok(FileContextResult {
        file: file.to_owned(),
        status,
        old_path,
        language,
        total_lines,
        change_type,
        patch: patch.to_owned(),
        changed_ranges,
        symbols: context_symbols,
        source_excerpts,
        reading_strategy,
    })
}

/// The bundle, or the error, that a result shared through the cache holds.
pub open spec fn shared_result(r: Result<Arc<FileContextResult>, ReviewQueryError>) -> Result<
    FileContextResult,
    ReviewQueryError,
> {
    match r {
        Ok(a) => Ok(*a),
        Err(e) => Err(e),
    }
}

/// The context bundle of a changed file, through the review's cache. Where
/// the cache holds a bundle for `file`, that bundle is returned and nothing
/// changes. Otherwise the bundle is computed as `compute_file_context` does
/// and stored; once `file` is known to be in the diff, its patch is stored
/// too. On a miss, `patch` is the file's cached patch where the cache holds
/// one; on a hit it is not read.
pub fn cached_file_context(
    cache: &mut ReviewCache,
    review_diff: &ReviewDiff,
    base_project: &ProjectIndex,
    head_project: &ProjectIndex,
    file: &str,
    patch: &str,
    source_text: Option<&str>,
    context_lines: usize,
    max_full_file_lines: usize,
) -> (r: Result<Arc<FileContextResult>, ReviewQueryError>)
    requires
        !old(cache)@.file_contexts.contains_key(file@) ==> context_fits(patch@, context_lines),
        !old(cache)@.file_contexts.contains_key(file@) && old(cache)@.file_diffs.contains_key(file@)
            ==> old(cache)@.file_diffs[file@] == patch@,
    ensures
        match lookup(old(cache)@.file_contexts, file@) {
            Some(fc) => r matches Ok(a) && *a == fc && final(cache)@ == old(cache)@,
            None => {
                &&& file_context_is(
                    shared_result(r),
                    *review_diff,
                    *base_project,
                    *head_project,
                    file@,
                    patch@,
                    source_text,
                    context_lines,
                    max_full_file_lines,
                )
                &&& final(cache)@.file_diffs == if file_entry_index(review_diff.file_diffs@, file@) >= 0 {
                    old(cache)@.file_diffs.insert(file@, patch@)
                } else {
                    old(cache)@.file_diffs
                }
                &&& final(cache)@.file_contexts == match r {
                    Ok(a) => old(cache)@.file_contexts.insert(file@, *a),
                    Err(_) => old(cache)@.file_contexts,
                }
                &&& final(cache)@.safety_report == old(cache)@.safety_report
                &&& final(cache)@.test_coverage == old(cache)@.test_coverage
                &&& final(cache)@.impact_results == old(cache)@.impact_results
            },
        },
{
    if let Some(cached) = cache.file_context(file) {
        return Ok(cached);
    }
    if find_file_entry(review_diff, file).is_some() {
        if cache.file_diff(file).is_none() {
            cache.store_file_diff(file.to_owned(), patch.to_owned());
        } else {
            assert(old(cache)@.file_diffs.insert(file@, patch@) =~= old(cache)@.file_diffs);
        }
    }
    match compute_file_context(
        review_diff,
        base_project,
        head_project,
        file,
        patch,
        source_text,
        context_lines,
        max_full_file_lines,
    ) {
        Ok(fc) => {
            let shared = Arc::new(fc);
            cache.store_file_context(file.to_owned(), shared.clone());
            Ok(shared)
        },
        Err(e) => Err(e),
    }
}

/// A stored bundle is handed out again: once `cached_file_context` has
/// given a bundle for a file, a later call gives the same bundle, whatever
/// its other arguments, until the file is invalidated.
pub proof fn law_context_cache_reuse(
    c: ReviewCacheView,
    file: Seq<char>,
    fc: FileContextResult,
    files: Seq<String>,
)
    requires
        !files.map_values(|f: String| f@).contains(file),
    ensures
        lookup(c.file_contexts.insert(file, fc), file) == Some(fc),
        lookup(c.file_contexts.insert(file, fc).remove_keys(files.map_values(|f: String| f@).to_set()), file) == Some(
            fc,
        ),
{
}


// ---------------------------------------------------------------------------
// Symbol Before/After Diff
// ---------------------------------------------------------------------------

/// Base and head source of one changed symbol, with a unified diff.
#[derive(Debug)]
pub struct SymbolDiffResult {
    pub symbol: String,
    pub file: String,
    pub kind: SymbolKind,
    pub change: String,
    pub signature_changed: Option<bool>,
    pub old_signature: Option<String>,
    pub new_signature: Option<String>,
    pub base_source: Option<String>,
    pub head_source: Option<String>,
    pub diff: Option<String>,
    pub base_line_range: Option<(usize, usize)>,
    pub head_line_range: Option<(usize, usize)>,
}

/// The header of a unified diff between `base` and `head`.
pub open spec fn diff_header() -> Seq<char> {
    "--- base\n+++ head\n"@
}

/// The unified line diff that `similar` renders between two texts, with
/// `base` and `head` as file names.
pub uninterp spec fn unified_line_diff(old: Seq<char>, new: Seq<char>) -> Seq<char>;

/// `similar::TextDiff::from_lines(old, new).unified_diff().header("base",
/// "head").to_string()`. The text is a function of the two inputs (no
/// deadline is configured). It is empty exactly when the inputs are equal
/// (no operation but equality, so no hunk); otherwise the two header lines
/// come first, before the hunks. The hunks' text is not stated.
#[verifier::external_body]
fn unified_diff_text(old: &str, new: &str) -> (r: String)
    ensures
        r@ == unified_line_diff(old@, new@),
        r@.len() == 0 <==> old@ == new@,
        r@.len() > 0 ==> diff_header().is_prefix_of(r@),
{
    similar::TextDiff::from_lines(old, new).unified_diff().header("base", "head").to_string()
}

/// A rendered diff as reported: none where it is empty.
pub fn diff_or_none(unified: String) -> (r: Option<String>)
    ensures
        match r {
            Some(t) => t@ == unified@ && unified@.len() > 0,
            None => unified@.len() == 0,
        },
{
    if unified.as_str().is_empty() {
        None
    } else {
        Some(unified)
    }
}

/// The source and line range of a symbol: the implementation text the
/// project's lookup returned (if any) and the range recorded in its table.
pub fn get_symbol_source_and_range(
    project: &ProjectIndex,
    symbol: &str,
    file: &str,
    implementation: Option<String>,
) -> (r: (Option<String>, Option<(usize, usize)>))
    ensures
        r.0 == implementation,
        r.1 == (match find_symbol(project.symbols@, file@, symbol@) {
            Some(s) => Some(s.line_range),
            None => None,
        }),
{
    let line_range = match project.get(file, symbol) {
        Some(s) => Some(s.line_range),
        None => None,
    };
    (implementation, line_range)
}

/// Where the base version of a changed symbol lives: nowhere for an
/// addition, the old file for a move, the file itself otherwise.
pub open spec fn base_location(c: SymbolChange, file: Seq<char>) -> Option<Seq<char>> {
    match c {
        SymbolChange::Added => None,
        SymbolChange::Moved { old_file, .. } => Some(old_file@),
        _ => Some(file),
    }
}

/// Where the head version of a changed symbol lives: nowhere for a
/// deletion, the file itself otherwise.
pub open spec fn head_location(c: SymbolChange, file: Seq<char>) -> Option<Seq<char>> {
    match c {
        SymbolChange::Deleted => None,
        _ => Some(file),
    }
}

pub open spec fn opt_str_view(o: Option<String>) -> Option<Seq<char>> {
    match o {
        Some(s) => Some(s@),
        None => None,
    }
}

/// The files whose base and head versions of a changed symbol are to be
/// read for its before/after diff.
pub fn symbol_source_locations(review_diff: &ReviewDiff, symbol: &str, file: &str) -> (r: Result<(Option<String>, Option<String>), ReviewQueryError>)
    ensures
        ({
            let k = entry_index(review_diff.symbol_diffs@, symbol@, file@);
            match r {
                Err(e) => k < 0 && (e matches ReviewQueryError::SymbolNotInDiff { symbol: s, file: f } && s@ == symbol@
                    && f@ == file@),
                Ok((b, h)) => k >= 0 && opt_str_view(b) == base_location(review_diff.symbol_diffs@[k].change, file@)
                    && opt_str_view(h) == head_location(review_diff.symbol_diffs@[k].change, file@),
            }
        }),
{
    let k = match find_symbol_entry(review_diff, symbol, file) {
        Some(k) => k,
        None => return Err(ReviewQueryError::SymbolNotInDiff { symbol: symbol.to_owned(), file: file.to_owned() }),
    };
    proof {
        lemma_entry_index(review_diff.symbol_diffs@, symbol@, file@);
    }
    let entry = &review_diff.symbol_diffs[k];
    let base = match &entry.change {
        SymbolChange::Added => None,
        SymbolChange::Moved { old_file, .. } => Some(old_file.clone()),
        _ => Some(file.to_owned()),
    };
    let head = match &entry.change {
        SymbolChange::Deleted => None,
        _ => Some(file.to_owned()),
    };
    Ok((base, head))
}

/// The line range a snapshot records for `symbol` at `loc`.
pub open spec fn range_at(p: ProjectIndex, loc: Option<Seq<char>>, symbol: Seq<char>) -> Option<(usize, usize)> {
    match loc {
        Some(f) => match find_symbol(p.symbols@, f, symbol) {
            Some(s) => Some(s.line_range),
            None => None,
        },
        None => None,
    }
}

/// Return a before/after source diff for a single changed symbol.
/// `base_implementation` and `head_implementation` are the sources the
/// project's lookup returned at the locations `symbol_source_locations`
/// names (`None` where it found nothing); a side the change has no version
/// on is left out. The unified diff is present when both sides are and
/// differ.
pub fn compute_symbol_diff(
    review_diff: &ReviewDiff,
    base_project: &ProjectIndex,
    head_project: &ProjectIndex,
    symbol: &str,
    file: &str,
    base_implementation: Option<String>,
    head_implementation: Option<String>,
) -> (r: Result<SymbolDiffResult, ReviewQueryError>)
    ensures
        ({
            let k = entry_index(review_diff.symbol_diffs@, symbol@, file@);
            let e = review_diff.symbol_diffs@[k];
            let bl = base_location(e.change, file@);
            let hl = head_location(e.change, file@);
            match r {
                Err(err) => k < 0 && (err matches ReviewQueryError::SymbolNotInDiff { symbol: s, file: f } && s@
                    == symbol@ && f@ == file@),
                Ok(d) => {
                    &&& k >= 0
                    &&& d.symbol@ == symbol@
                    &&& d.file@ == file@
                    &&& d.kind == e.kind
                    &&& match e.change {
                        SymbolChange::Added => d.change@ == "added"@ && d.signature_changed is None
                            && d.old_signature is None && d.new_signature is None,
                        SymbolChange::Deleted => d.change@ == "deleted"@ && d.signature_changed is None
                            && d.old_signature is None && d.new_signature is None,
                        SymbolChange::Modified { signature_changed, old_signature, new_signature, .. } => d.change@
                            == "modified"@ && d.signature_changed == Some(signature_changed) && d.old_signature
                            == Some(old_signature) && d.new_signature == Some(new_signature),
                        SymbolChange::Moved { signature_changed, .. } => d.change@ == "moved"@
                            && d.signature_changed == Some(signature_changed) && d.old_signature is None
                            && d.new_signature is None,
                    }
                    &&& d.base_source == (if bl is Some { base_implementation } else { None })
                    &&& d.head_source == (if hl is Some { head_implementation } else { None })
                    &&& d.base_line_range == range_at(*base_project, bl, symbol@)
                    &&& d.head_line_range == range_at(*head_project, hl, symbol@)
                    &&& match (d.base_source, d.head_source) {
                        (Some(b), Some(h)) => {
                            let u = unified_line_diff(b@, h@);
                            if u.len() == 0 {
                                d.diff is None
                            } else {
                                d.diff is Some && d.diff->0@ == u
                            }
                        },
                        _ => d.diff is None,
                    }
                    &&& (d.diff is Some <==> (d.base_source matches Some(b) && d.head_source matches Some(h) && b@
                        != h@))
                    &&& (d.diff matches Some(t) ==> diff_header().is_prefix_of(t@))
                },
            }
        }),
{
    let k = match find_symbol_entry(review_diff, symbol, file) {
        Some(k) => k,
        None => return Err(ReviewQueryError::SymbolNotInDiff { symbol: symbol.to_owned(), file: file.to_owned() }),
    };
    proof {
        lemma_entry_index(review_diff.symbol_diffs@, symbol@, file@);
    }
    let entry = &review_diff.symbol_diffs[k];
    let kind = entry.kind;

    let (change, signature_changed, old_signature, new_signature, base_source, head_source, base_line_range, head_line_range) =
        match &entry.change {
        SymbolChange::Added => {
            let (src, lr) = get_symbol_source_and_range(head_project, symbol, file, head_implementation);
            (String::from_str("added"), None, None, None, None, src, None, lr)
        },
        SymbolChange::Deleted => {
            let (src, lr) = get_symbol_source_and_range(base_project, symbol, file, base_implementation);
            (String::from_str("deleted"), None, None, None, src, None, lr, None)
        },
        SymbolChange::Modified { signature_changed, old_signature, new_signature, .. } => {
            let (base_src, base_lr) = get_symbol_source_and_range(base_project, symbol, file, base_implementation);
            let (head_src, head_lr) = get_symbol_source_and_range(head_project, symbol, file, head_implementation);
            (
                String::from_str("modified"),
                Some(*signature_changed),
                Some(old_signature.clone()),
                Some(new_signature.clone()),
                base_src,
                head_src,
                base_lr,
                head_lr,
            )
        },
        SymbolChange::Moved { old_file, signature_changed, .. } => {
            // Base is in old_file; head is in the new file (entry.file).
            let (base_src, base_lr) = get_symbol_source_and_range(
                base_project,
                symbol,
                old_file.as_str(),
                base_implementation,
            );
            let (head_src, head_lr) = get_symbol_source_and_range(head_project, symbol, file, head_implementation);
            (String::from_str("moved"), Some(*signature_changed), None, None, base_src, head_src, base_lr, head_lr)
        },
    };

    // Generate unified diff for Modified/Moved symbols (where both sides exist).
    let diff_text = match (&base_source, &head_source) {
        (Some(base), Some(head)) => {
            diff_or_none(unified_diff_text(base.as_str(), head.as_str()))
        },
        _ => None,
    };

    Ok(SymbolDiffResult {
        symbol: symbol.to_owned(),
        file: file.to_owned(),
        kind,
        change,
        signature_changed,
        old_signature,
        new_signature,
        base_source,
        head_source,
        diff: diff_text,
        base_line_range,
        head_line_range,
    })
}

/// A modified or renamed file is `Modified` exactly when its patch has a
/// line that starts with `+` and is not a `+++` header, and
/// `ModifiedDeletionsOnly` otherwise; whether the file was renamed makes
/// no difference. An added file is new and a deleted file deleted,
/// whatever the patch.
pub proof fn law_edited_file_change_type(status: FileChangeStatus, patch: Seq<char>)
    requires
        status is Modified || status is Renamed,
    ensures
        change_type_spec(status, patch) is Modified || change_type_spec(status, patch) is ModifiedDeletionsOnly,
        change_type_spec(status, patch) is Modified <==> exists|k: int|
            0 <= k < lines(patch).len() && {
                let l = #[trigger] lines(patch)[k];
                &&& l.len() > 0
                &&& l[0] == '+'
                &&& !(l.len() >= 3 && l[1] == '+' && l[2] == '+')
            },
        change_type_spec(FileChangeStatus::Modified, patch) == change_type_spec(FileChangeStatus::Renamed, patch),
        change_type_spec(FileChangeStatus::Added, patch) is NewFile,
        change_type_spec(FileChangeStatus::Deleted, patch) is DeletedFile,
{
}

} // verus!
