//! File-level changes between two git refs, as `git diff --name-status -M`
//! reports them.

use vstd::prelude::*;

use crate::text::{find_char, find_char_from, lemma_find_char, lines, split_lines, string_of};

verus! {

/// How a file changed between two refs.
#[derive(Debug)]
pub enum FileStatus {
    Added,
    Deleted,
    Modified,
    Renamed { from: String },
}

/// One changed file.
#[derive(Debug)]
pub struct FileDiff {
    pub path: String,
    pub status: FileStatus,
}

/// Failures of the git commands whose output this module reads.
#[derive(Debug)]
pub enum GitError {
    /// The command could not be started or exited unsuccessfully.
    CommandFailed(String),
    /// The command wrote output that is not UTF-8.
    InvalidUtf8,
}

pub enum FileStatusView {
    Added,
    Deleted,
    Modified,
    Renamed { from: Seq<char> },
}

pub struct FileDiffView {
    pub path: Seq<char>,
    pub status: FileStatusView,
}

impl View for FileStatus {
    type V = FileStatusView;

    open spec fn view(&self) -> FileStatusView {
        match self {
            FileStatus::Added => FileStatusView::Added,
            FileStatus::Deleted => FileStatusView::Deleted,
            FileStatus::Modified => FileStatusView::Modified,
            FileStatus::Renamed { from } => FileStatusView::Renamed { from: from@ },
        }
    }
}

impl View for FileDiff {
    type V = FileDiffView;

    open spec fn view(&self) -> FileDiffView {
        FileDiffView { path: self.path@, status: self.status@ }
    }
}

impl Clone for FileStatus {
    fn clone(&self) -> (r: Self)
        ensures
            r == *self,
    {
        match self {
            FileStatus::Added => FileStatus::Added,
            FileStatus::Deleted => FileStatus::Deleted,
            FileStatus::Modified => FileStatus::Modified,
            FileStatus::Renamed { from } => FileStatus::Renamed { from: from.clone() },
        }
    }
}

impl Clone for FileDiff {
    fn clone(&self) -> (r: Self)
        ensures
            r == *self,
    {
        FileDiff { path: self.path.clone(), status: self.status.clone() }
    }
}

/// The first three tab-separated fields of a line (`splitn(3, '\t')`):
/// the text before the first tab, the text between the first and second
/// tab, and everything after the second tab.
pub open spec fn tab_fields(line: Seq<char>) -> (Seq<char>, Option<Seq<char>>, Option<Seq<char>>) {
    let t1 = find_char(line, '\t');
    if t1 < 0 {
        (line, None, None)
    } else {
        let rest = line.skip(t1 + 1);
        let t2 = find_char(rest, '\t');
        if t2 < 0 {
            (line.take(t1), Some(rest), None)
        } else {
            (line.take(t1), Some(rest.take(t2)), Some(rest.skip(t2 + 1)))
        }
    }
}

pub open spec fn field_or_empty(f: Option<Seq<char>>) -> Seq<char> {
    match f {
        Some(s) => s,
        None => seq![],
    }
}

pub open spec fn is_code(code: Seq<char>, c: char) -> bool {
    code.len() == 1 && code[0] == c
}

/// The change one line of `--name-status` output describes: `A`, `D` and
/// `M` name the path in the second field; a code starting with `R` names
/// the old path in the second field and the new one in the third; any
/// other code (copy, type change, unmerged) counts as a modification.
/// Lines that yield an empty path describe nothing.
pub open spec fn status_line(line: Seq<char>) -> Option<FileDiffView> {
    let (code, f1, f2) = tab_fields(line);
    let p1 = field_or_empty(f1);
    let p2 = field_or_empty(f2);
    let d = if is_code(code, 'A') {
        FileDiffView { path: p1, status: FileStatusView::Added }
    } else if is_code(code, 'D') {
        FileDiffView { path: p1, status: FileStatusView::Deleted }
    } else if is_code(code, 'M') {
        FileDiffView { path: p1, status: FileStatusView::Modified }
    } else if code.len() > 0 && code[0] == 'R' {
        FileDiffView { path: p2, status: FileStatusView::Renamed { from: p1 } }
    } else {
        FileDiffView { path: p1, status: FileStatusView::Modified }
    };
    if d.path.len() > 0 {
        Some(d)
    } else {
        None
    }
}

/// The changes described by a sequence of output lines, in order.
pub open spec fn status_entries(ls: Seq<Seq<char>>) -> Seq<FileDiffView>
    decreases ls.len(),
{
    if ls.len() == 0 {
        seq![]
    } else {
        let prev = status_entries(ls.drop_last());
        match status_line(ls.last()) {
            Some(d) => prev.push(d),
            None => prev,
        }
    }
}

/// Parses one line of `--name-status` output.
fn parse_status_line(line: &Vec<char>) -> (r: Option<FileDiff>)
    ensures
        match r {
            Some(d) => status_line(line@) == Some(d@),
            None => status_line(line@) is None,
        },
{
    let n = line.len();
    let t1 = find_char_from(line, 0, '\t');
    assert(line@.skip(0) =~= line@);
    proof {
        lemma_find_char(line@, '\t');
    }
    // Bounds of the three fields: code = [0, c_end), f1 = [f1_start, f1_end), f2 = [f2_start, n).
    let (c_end, has_f1, f1_start, f1_end, has_f2, f2_start) = match t1 {
        None => (n, false, n, n, false, n),
        Some(t1u) => {
            let t2 = find_char_from(line, t1u + 1, '\t');
            proof {
                lemma_find_char(line@.skip(t1u + 1), '\t');
            }
            match t2 {
                None => (t1u, true, t1u + 1, n, false, n),
                Some(t2u) => (t1u, true, t1u + 1, t1u + 1 + t2u, true, t1u + 1 + t2u + 1),
            }
        },
    };
    let ghost (code, f1, f2) = tab_fields(line@);
    proof {
        if find_char(line@, '\t') >= 0 {
            let t1 = find_char(line@, '\t');
            let rest = line@.skip(t1 + 1);
            assert(line@.take(t1) =~= line@.subrange(0, c_end as int));
            if find_char(rest, '\t') < 0 {
                assert(rest =~= line@.subrange(f1_start as int, f1_end as int));
            } else {
                let t2 = find_char(rest, '\t');
                assert(rest.take(t2) =~= line@.subrange(f1_start as int, f1_end as int));
                assert(rest.skip(t2 + 1) =~= line@.subrange(f2_start as int, n as int));
            }
        } else {
            assert(line@ =~= line@.subrange(0, c_end as int));
        }
    }
    let p1 = if has_f1 { string_of(line, f1_start, f1_end) } else { String::new() };
    let p2 = if has_f2 { string_of(line, f2_start, n) } else { String::new() };
    assert(p1@ == field_or_empty(f1));
    assert(p2@ == field_or_empty(f2));
    let d = if c_end == 1 && line[0] == 'A' {
        FileDiff { path: p1, status: FileStatus::Added }
    } else if c_end == 1 && line[0] == 'D' {
        FileDiff { path: p1, status: FileStatus::Deleted }
    } else if c_end == 1 && line[0] == 'M' {
        FileDiff { path: p1, status: FileStatus::Modified }
    } else if c_end > 0 && line[0] == 'R' {
        FileDiff { path: p2, status: FileStatus::Renamed { from: p1 } }
    } else {
        FileDiff { path: p1, status: FileStatus::Modified }
    };
    assert(code.len() == c_end);
    assert(c_end > 0 ==> code[0] == line@[0]);
    if d.path.as_str().is_empty() {
        None
    } else {
        Some(d)
    }
}

/// Parse the output of `git diff --name-status -M` into a list of FileDiff.
///
/// Format per line:
///   A   path/added.rs
///   D   path/deleted.rs
///   M   path/modified.rs
///   R100  old/path.rs  new/path.rs   (rename with 100% similarity)
pub fn parse_name_status(output: &str) -> (r: Result<Vec<FileDiff>, GitError>)
    ensures
        r matches Ok(diffs) && diffs@.map_values(|d: FileDiff| d@) == status_entries(lines(output@)),
{
    let ls = split_lines(output);
    let mut diffs: Vec<FileDiff> = Vec::new();
    let ghost all = lines(output@);
    let mut i: usize = 0;
    while i < ls.len()
        invariant
            0 <= i <= ls@.len(),
            ls@.len() == all.len(),
            forall|k: int| 0 <= k < ls@.len() ==> (#[trigger] ls@[k])@ == all[k],
            diffs@.map_values(|d: FileDiff| d@) == status_entries(all.take(i as int)),
        decreases ls@.len() - i,
    {
        let line = &ls[i];
        assert(all.take(i + 1).drop_last() =~= all.take(i as int));
        assert(all.take(i + 1).last() == line@);
        if line.len() > 0 {
            match parse_status_line(line) {
                Some(d) => {
                    diffs.push(d);
                },
                None => {},
            }
        }
        i += 1;
    }
    assert(all.take(i as int) =~= all);
    Ok(diffs)
}

} // verus!
