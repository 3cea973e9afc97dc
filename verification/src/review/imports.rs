//! Import-level diff of the changed files: which import statements a pull
//! request added to or removed from each file.

use vstd::prelude::*;

use crate::model::{symbols_in_file, Language, ProjectIndex, Symbol, SymbolKind};
use crate::text::same_text;

use super::context::{file_entry_index, find_file_entry, lemma_file_entry_index};
use super::diff::ReviewDiff;
use super::{FileChangeStatus, FileDiffEntry};

verus! {

/// One import statement: its first line and its text.
#[derive(Debug)]
pub struct ImportEntry {
    pub line: usize,
    pub text: String,
}

impl Clone for ImportEntry {
    fn clone(&self) -> (r: Self)
        ensures
            r == *self,
    {
        ImportEntry { line: self.line, text: self.text.clone() }
    }
}

/// The imports one file gained and lost.
#[derive(Debug)]
pub struct FileImportDiff {
    pub file: String,
    pub language: Language,
    pub added_imports: Vec<ImportEntry>,
    pub removed_imports: Vec<ImportEntry>,
}

pub struct FileImportDiffView {
    pub file: Seq<char>,
    pub language: Language,
    pub added_imports: Seq<ImportEntry>,
    pub removed_imports: Seq<ImportEntry>,
}

impl View for FileImportDiff {
    type V = FileImportDiffView;

    open spec fn view(&self) -> FileImportDiffView {
        FileImportDiffView {
            file: self.file@,
            language: self.language,
            added_imports: self.added_imports@,
            removed_imports: self.removed_imports@,
        }
    }
}

/// The import symbols a snapshot holds for `file`, in table order.
pub open spec fn imports_of(p: ProjectIndex, file: Seq<char>) -> Seq<Symbol> {
    symbols_in_file(p.symbols@, file).filter(|s: Symbol| s.kind == SymbolKind::Import)
}

/// Whether some symbol of `ss` has the name `n`.
pub open spec fn has_name(ss: Seq<Symbol>, n: Seq<char>) -> bool {
    exists|k: int| 0 <= k < ss.len() && (#[trigger] ss[k]).name@ == n
}

/// The imports of `from` whose text does not occur in `other`, in order.
pub open spec fn unmatched_imports(from: Seq<Symbol>, other: Seq<Symbol>) -> Seq<ImportEntry>
    decreases from.len(),
{
    if from.len() == 0 {
        seq![]
    } else {
        let rest = unmatched_imports(from.drop_last(), other);
        let s = from.last();
        if has_name(other, s.name@) {
            rest
        } else {
            rest.push(ImportEntry { line: s.line_range.0, text: s.name })
        }
    }
}

/// The import diff of one changed file: the base side is read at the old
/// path of a rename, and an added (deleted) file has no base (head) imports.
pub open spec fn entry_import_diff(e: FileDiffEntry, base: ProjectIndex, head: ProjectIndex) -> FileImportDiffView {
    let base_file = match e.old_path {
        Some(o) => o@,
        None => e.path@,
    };
    let base_imports = if e.status == FileChangeStatus::Added {
        Seq::<Symbol>::empty()
    } else {
        imports_of(base, base_file)
    };
    let head_imports = if e.status == FileChangeStatus::Deleted {
        Seq::<Symbol>::empty()
    } else {
        imports_of(head, e.path@)
    };
    FileImportDiffView {
        file: e.path@,
        language: e.language,
        added_imports: unmatched_imports(head_imports, base_imports),
        removed_imports: unmatched_imports(base_imports, head_imports),
    }
}

proof fn lemma_unmatched_members(from: Seq<Symbol>, other: Seq<Symbol>)
    ensures
        forall|k: int|
            0 <= k < unmatched_imports(from, other).len() ==> has_name(
                from,
                (#[trigger] unmatched_imports(from, other)[k]).text@,
            ) && !has_name(other, unmatched_imports(from, other)[k].text@),
    decreases from.len(),
{
    if from.len() > 0 {
        let init = from.drop_last();
        lemma_unmatched_members(init, other);
        let r = unmatched_imports(from, other);
        let prev = unmatched_imports(init, other);
        assert forall|k: int| 0 <= k < r.len() implies has_name(from, (#[trigger] r[k]).text@) && !has_name(
            other,
            r[k].text@,
        ) by {
            if k < prev.len() {
                assert(r[k] == prev[k]);
                let j = choose|j: int| 0 <= j < init.len() && (#[trigger] init[j]).name@ == prev[k].text@;
                assert(from[j] == init[j]);
            } else {
                assert(from[from.len() - 1] == from.last());
            }
        }
    }
}

/// No import is both added to and removed from a file: an import whose
/// text occurs on both sides is unchanged.
pub proof fn law_import_changes_disjoint(e: FileDiffEntry, base: ProjectIndex, head: ProjectIndex)
    ensures
        ({
            let d = entry_import_diff(e, base, head);
            forall|i: int, j: int|
                0 <= i < d.added_imports.len() && 0 <= j < d.removed_imports.len() ==> (#[trigger] d.added_imports[i]).text@
                    != (#[trigger] d.removed_imports[j]).text@
        }),
{
    let base_file = match e.old_path {
        Some(o) => o@,
        None => e.path@,
    };
    let b = if e.status == FileChangeStatus::Added {
        Seq::<Symbol>::empty()
    } else {
        imports_of(base, base_file)
    };
    let h = if e.status == FileChangeStatus::Deleted {
        Seq::<Symbol>::empty()
    } else {
        imports_of(head, e.path@)
    };
    lemma_unmatched_members(h, b);
    lemma_unmatched_members(b, h);
    let d = entry_import_diff(e, base, head);
    assert forall|i: int, j: int|
        0 <= i < d.added_imports.len() && 0 <= j < d.removed_imports.len() implies (#[trigger] d.added_imports[i]).text@
        != (#[trigger] d.removed_imports[j]).text@ by {
        assert(d.added_imports[i] == unmatched_imports(h, b)[i]);
        assert(d.removed_imports[j] == unmatched_imports(b, h)[j]);
    }
}

/// The import symbols of `file` in the project's symbol table.
pub fn imports_from_project(project: &ProjectIndex, file: &str) -> (r: Vec<Symbol>)
    ensures
        r@ == imports_of(*project, file@),
{
    let in_file = project.list_by_file(file);
    let mut r: Vec<Symbol> = Vec::new();
    let mut i: usize = 0;
    while i < in_file.len()
        invariant
            0 <= i <= in_file@.len(),
            in_file@ == symbols_in_file(project.symbols@, file@),
            r@ == in_file@.take(i as int).filter(|s: Symbol| s.kind == SymbolKind::Import),
        decreases in_file@.len() - i,
    {
        proof {
            reveal_with_fuel(Seq::<_>::filter, 1);
            assert(in_file@.take(i + 1).drop_last() =~= in_file@.take(i as int));
        }
        if in_file[i].kind == SymbolKind::Import {
            r.push(in_file[i].clone());
        }
        i += 1;
    }
    assert(in_file@.take(i as int) =~= in_file@);
    r
}

fn names_contain(ss: &Vec<Symbol>, n: &str) -> (b: bool)
    ensures
        b == has_name(ss@, n@),
{
    let mut i: usize = 0;
    while i < ss.len()
        invariant
            0 <= i <= ss@.len(),
            forall|j: int| 0 <= j < i ==> (#[trigger] ss@[j]).name@ != n@,
        decreases ss@.len() - i,
    {
        if same_text(ss[i].name.as_str(), n) {
            return true;
        }
        i += 1;
    }
    false
}

fn unmatched(from: &Vec<Symbol>, other: &Vec<Symbol>) -> (r: Vec<ImportEntry>)
    ensures
        r@ == unmatched_imports(from@, other@),
{
    let mut r: Vec<ImportEntry> = Vec::new();
    let mut i: usize = 0;
    while i < from.len()
        invariant
            0 <= i <= from@.len(),
            r@ == unmatched_imports(from@.take(i as int), other@),
        decreases from@.len() - i,
    {
        proof {
            assert(from@.take(i + 1).drop_last() =~= from@.take(i as int));
        }
        let s = &from[i];
        if !names_contain(other, s.name.as_str()) {
            r.push(ImportEntry { line: s.line_range.0, text: s.name.clone() });
        }
        i += 1;
    }
    assert(from@.take(i as int) =~= from@);
    r
}

/// The imports a changed file gained and lost between the two snapshots.
pub fn compute_diff_for_entry(file_entry: &FileDiffEntry, base_project: &ProjectIndex, head_project: &ProjectIndex) -> (r: FileImportDiff)
    ensures
        r@ == entry_import_diff(*file_entry, *base_project, *head_project),
{
    let file = file_entry.path.as_str();
    // Get imports from base (use old_path for renames).
    let base_file = match &file_entry.old_path {
        Some(o) => o.as_str(),
        None => file,
    };
    let base_imports = match file_entry.status {
        FileChangeStatus::Added => Vec::new(),
        _ => imports_from_project(base_project, base_file),
    };
    let head_imports = match file_entry.status {
        FileChangeStatus::Deleted => Vec::new(),
        _ => imports_from_project(head_project, file),
    };
    let added_imports = unmatched(&head_imports, &base_imports);
    let removed_imports = unmatched(&base_imports, &head_imports);
    FileImportDiff { file: file_entry.path.clone(), language: file_entry.language, added_imports, removed_imports }
}

/// Import diff of a single file; `None` when the file is not among the
/// changed files of the review.
pub fn compute_import_diff_for_file(
    review_diff: &ReviewDiff,
    base_project: &ProjectIndex,
    head_project: &ProjectIndex,
    file: &str,
) -> (r: Option<FileImportDiff>)
    ensures
        ({
            let k = file_entry_index(review_diff.file_diffs@, file@);
            match r {
                Some(d) => k >= 0 && d@ == entry_import_diff(review_diff.file_diffs@[k], *base_project, *head_project),
                None => k < 0,
            }
        }),
{
    proof {
        lemma_file_entry_index(review_diff.file_diffs@, file@);
    }
    match find_file_entry(review_diff, file) {
        Some(k) => Some(compute_diff_for_entry(&review_diff.file_diffs[k], base_project, head_project)),
        None => None,
    }
}

/// Whether an import diff records any change.
pub open spec fn import_diff_nonempty(d: FileImportDiffView) -> bool {
    d.added_imports.len() > 0 || d.removed_imports.len() > 0
}

/// The import diffs with a change among the first `n` changed files, each
/// computed from the first entry for its path.
pub open spec fn import_diffs_upto(fs: Seq<FileDiffEntry>, base: ProjectIndex, head: ProjectIndex, n: int) -> Seq<FileImportDiffView>
    decreases n,
{
    if n <= 0 {
        seq![]
    } else {
        let rest = import_diffs_upto(fs, base, head, n - 1);
        let d = entry_import_diff(fs[file_entry_index(fs, fs[n - 1].path@)], base, head);
        if import_diff_nonempty(d) {
            rest.push(d)
        } else {
            rest
        }
    }
}

pub open spec fn import_diff_views(ds: Seq<FileImportDiff>) -> Seq<FileImportDiffView> {
    ds.map_values(|d: FileImportDiff| d@)
}

/// Import diffs across all changed files of the review, in file order,
/// leaving out files whose imports did not change.
pub fn compute_import_diff_all(review_diff: &ReviewDiff, base_project: &ProjectIndex, head_project: &ProjectIndex) -> (r: Vec<FileImportDiff>)
    ensures
        import_diff_views(r@) == import_diffs_upto(
            review_diff.file_diffs@,
            *base_project,
            *head_project,
            review_diff.file_diffs@.len() as int,
        ),
{
    let ghost fs = review_diff.file_diffs@;
    let mut r: Vec<FileImportDiff> = Vec::new();
    let mut i: usize = 0;
    while i < review_diff.file_diffs.len()
        invariant
            0 <= i <= fs.len(),
            fs == review_diff.file_diffs@,
            import_diff_views(r@) == import_diffs_upto(fs, *base_project, *head_project, i as int),
        decreases fs.len() - i,
    {
        let path = review_diff.file_diffs[i].path.as_str();
        match compute_import_diff_for_file(review_diff, base_project, head_project, path) {
            Some(d) => {
                if d.added_imports.len() > 0 || d.removed_imports.len() > 0 {
                    r.push(d);
                    assert(import_diff_views(r@) =~= import_diff_views(r@.drop_last()).push(d@));
                }
            },
            None => {
                proof {
                    lemma_file_entry_index(fs, fs[i as int].path@);
                }
            },
        }
        i += 1;
    }
    r
}

} // verus!
