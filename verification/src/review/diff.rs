//! The semantic diff of a review: which files and which symbols changed
//! between the base and head snapshots.

use vstd::prelude::*;

use crate::git::{FileDiff, FileDiffView, FileStatus, FileStatusView};
use crate::model::{find_symbol, language_of, symbols_in_file, ProjectIndex, Symbol};
use crate::text::same_text;

use super::{
    DiffStats, FileChangeStatus, FileDiffEntry, FileDiffEntryView, SymbolChange, SymbolChangeView,
    SymbolDiffEntry, SymbolDiffView,
};

verus! {

/// The semantic diff of a review.
#[derive(Debug)]
pub struct ReviewDiff {
    pub file_diffs: Vec<FileDiffEntry>,
    pub symbol_diffs: Vec<SymbolDiffEntry>,
    pub stats: DiffStats,
}

// ---------------------------------------------------------------------------
// Symbol-level diff of one file
// ---------------------------------------------------------------------------

/// Index of the last symbol of `syms` named `name`, or -1.
pub open spec fn last_named_index(syms: Seq<Symbol>, name: Seq<char>) -> int
    decreases syms.len(),
{
    if syms.len() == 0 {
        -1
    } else if syms.last().name@ == name {
        syms.len() - 1
    } else {
        last_named_index(syms.drop_last(), name)
    }
}

/// Whether some symbol of `syms` is named `name`.
pub open spec fn names_contain(syms: Seq<Symbol>, name: Seq<char>) -> bool {
    exists|i: int| 0 <= i < syms.len() && (#[trigger] syms[i]).name@ == name
}

pub proof fn lemma_last_named_index(syms: Seq<Symbol>, name: Seq<char>)
    ensures
        -1 <= last_named_index(syms, name) < syms.len(),
        last_named_index(syms, name) >= 0 ==> syms[last_named_index(syms, name)].name@ == name,
        (last_named_index(syms, name) >= 0) == names_contain(syms, name),
    decreases syms.len(),
{
    if syms.len() > 0 {
        lemma_last_named_index(syms.drop_last(), name);
        if syms.last().name@ != name {
            if names_contain(syms, name) {
                let i = choose|i: int| 0 <= i < syms.len() && (#[trigger] syms[i]).name@ == name;
                assert(syms.drop_last()[i].name@ == name);
            }
            if names_contain(syms.drop_last(), name) {
                let i = choose|i: int|
                    0 <= i < syms.drop_last().len() && (#[trigger] syms.drop_last()[i]).name@ == name;
                assert(syms[i].name@ == name);
            }
        } else {
            assert(syms[syms.len() - 1].name@ == name);
        }
    }
}

pub open spec fn added_view(name: Seq<char>, file: Seq<char>, kind: crate::model::SymbolKind) -> SymbolDiffView {
    SymbolDiffView { name, file, kind, change: SymbolChangeView::Added }
}

pub open spec fn deleted_view(name: Seq<char>, file: Seq<char>, kind: crate::model::SymbolKind) -> SymbolDiffView {
    SymbolDiffView { name, file, kind, change: SymbolChangeView::Deleted }
}

/// Head symbols whose name the base lacks, as additions to `file`.
pub open spec fn added_entries(base: Seq<Symbol>, head: Seq<Symbol>, file: Seq<char>) -> Seq<SymbolDiffView>
    decreases head.len(),
{
    if head.len() == 0 {
        seq![]
    } else {
        let prev = added_entries(base, head.drop_last(), file);
        let h = head.last();
        if !names_contain(base, h.name@) {
            prev.push(added_view(h.name@, file, h.kind))
        } else {
            prev
        }
    }
}

/// Base symbols whose name the head lacks, as deletions from `file`.
pub open spec fn deleted_entries(base: Seq<Symbol>, head: Seq<Symbol>, file: Seq<char>) -> Seq<SymbolDiffView>
    decreases base.len(),
{
    if base.len() == 0 {
        seq![]
    } else {
        let prev = deleted_entries(base.drop_last(), head, file);
        let b = base.last();
        if !names_contain(head, b.name@) {
            prev.push(deleted_view(b.name@, file, b.kind))
        } else {
            prev
        }
    }
}

/// The change between a base and a head symbol of the same name: the
/// signature differs, or (including that case) the body hash differs.
pub open spec fn modified_view(b: Symbol, h: Symbol, file: Seq<char>) -> SymbolDiffView {
    let signature_changed = b.signature@ != h.signature@;
    SymbolDiffView {
        name: h.name@,
        file,
        kind: h.kind,
        change: SymbolChangeView::Modified {
            signature_changed,
            old_signature: b.signature@,
            new_signature: h.signature@,
            body_changed: signature_changed || b.body_hash != h.body_hash,
        },
    }
}

/// Head symbols that also exist in the base (the last base symbol of that
/// name is the one compared) and changed.
pub open spec fn modified_entries(base: Seq<Symbol>, head: Seq<Symbol>, file: Seq<char>) -> Seq<SymbolDiffView>
    decreases head.len(),
{
    if head.len() == 0 {
        seq![]
    } else {
        let prev = modified_entries(base, head.drop_last(), file);
        let h = head.last();
        let bi = last_named_index(base, h.name@);
        if bi >= 0 {
            let b = base[bi];
            if b.signature@ != h.signature@ || b.body_hash != h.body_hash {
                prev.push(modified_view(b, h, file))
            } else {
                prev
            }
        } else {
            prev
        }
    }
}

/// Additions, then deletions, then modifications between two versions of a file.
pub open spec fn symbol_changes(base: Seq<Symbol>, head: Seq<Symbol>, file: Seq<char>) -> Seq<SymbolDiffView> {
    added_entries(base, head, file) + deleted_entries(base, head, file) + modified_entries(base, head, file)
}

/// Whether a reported change is real: an addition is absent from the base,
/// a deletion absent from the head, and a modification is present in both
/// with a different signature or body.
pub open spec fn change_is_real(e: SymbolDiffView, base: Seq<Symbol>, head: Seq<Symbol>) -> bool {
    match e.change {
        SymbolChangeView::Added => names_contain(head, e.name) && !names_contain(base, e.name),
        SymbolChangeView::Deleted => names_contain(base, e.name) && !names_contain(head, e.name),
        SymbolChangeView::Modified { signature_changed, body_changed, .. } => {
            &&& names_contain(base, e.name)
            &&& names_contain(head, e.name)
            &&& (signature_changed || body_changed)
        },
        SymbolChangeView::Moved { .. } => false,
    }
}

proof fn lemma_added_real(base: Seq<Symbol>, head: Seq<Symbol>, file: Seq<char>)
    ensures
        forall|k: int|
            0 <= k < added_entries(base, head, file).len() ==> {
                let e = #[trigger] added_entries(base, head, file)[k];
                &&& e.change is Added
                &&& names_contain(head, e.name)
                &&& !names_contain(base, e.name)
            },
    decreases head.len(),
{
    if head.len() > 0 {
        let init = head.drop_last();
        lemma_added_real(base, init, file);
        let prev = added_entries(base, init, file);
        let cur = added_entries(base, head, file);
        assert forall|k: int| 0 <= k < cur.len() implies {
            let e = #[trigger] cur[k];
            &&& e.change is Added
            &&& names_contain(head, e.name)
            &&& !names_contain(base, e.name)
        } by {
            if k < prev.len() {
                assert(cur[k] == prev[k]);
                let i = choose|i: int| 0 <= i < init.len() && (#[trigger] init[i]).name@ == prev[k].name;
                assert(head[i] == init[i]);
            } else {
                assert(head[head.len() - 1] == head.last());
            }
        }
    }
}

proof fn lemma_deleted_real(base: Seq<Symbol>, head: Seq<Symbol>, file: Seq<char>)
    ensures
        forall|k: int|
            0 <= k < deleted_entries(base, head, file).len() ==> {
                let e = #[trigger] deleted_entries(base, head, file)[k];
                &&& e.change is Deleted
                &&& names_contain(base, e.name)
                &&& !names_contain(head, e.name)
            },
    decreases base.len(),
{
    if base.len() > 0 {
        let init = base.drop_last();
        lemma_deleted_real(init, head, file);
        let prev = deleted_entries(init, head, file);
        let cur = deleted_entries(base, head, file);
        assert forall|k: int| 0 <= k < cur.len() implies {
            let e = #[trigger] cur[k];
            &&& e.change is Deleted
            &&& names_contain(base, e.name)
            &&& !names_contain(head, e.name)
        } by {
            if k < prev.len() {
                assert(cur[k] == prev[k]);
                let i = choose|i: int| 0 <= i < init.len() && (#[trigger] init[i]).name@ == prev[k].name;
                assert(base[i] == init[i]);
            } else {
                assert(base[base.len() - 1] == base.last());
            }
        }
    }
}

proof fn lemma_modified_real(base: Seq<Symbol>, head: Seq<Symbol>, file: Seq<char>)
    ensures
        forall|k: int|
            0 <= k < modified_entries(base, head, file).len() ==> {
                let e = #[trigger] modified_entries(base, head, file)[k];
                &&& e.change matches SymbolChangeView::Modified { signature_changed, body_changed, .. } && (
                signature_changed || body_changed)
                &&& names_contain(base, e.name)
                &&& names_contain(head, e.name)
            },
    decreases head.len(),
{
    if head.len() > 0 {
        let init = head.drop_last();
        lemma_modified_real(base, init, file);
        lemma_last_named_index(base, head.last().name@);
        let prev = modified_entries(base, init, file);
        let cur = modified_entries(base, head, file);
        assert forall|k: int| 0 <= k < cur.len() implies {
            let e = #[trigger] cur[k];
            &&& e.change matches SymbolChangeView::Modified { signature_changed, body_changed, .. } && (
            signature_changed || body_changed)
            &&& names_contain(base, e.name)
            &&& names_contain(head, e.name)
        } by {
            if k < prev.len() {
                assert(cur[k] == prev[k]);
                let i = choose|i: int| 0 <= i < init.len() && (#[trigger] init[i]).name@ == prev[k].name;
                assert(head[i] == init[i]);
            } else {
                assert(head[head.len() - 1] == head.last());
            }
        }
    }
}

/// Every change the symbol diff of a file reports is real.
pub proof fn law_symbol_changes_are_real(base: Seq<Symbol>, head: Seq<Symbol>, file: Seq<char>)
    ensures
        forall|k: int|
            0 <= k < symbol_changes(base, head, file).len() ==> change_is_real(
                #[trigger] symbol_changes(base, head, file)[k],
                base,
                head,
            ),
{
    lemma_added_real(base, head, file);
    lemma_deleted_real(base, head, file);
    lemma_modified_real(base, head, file);
    let a = added_entries(base, head, file);
    let d = deleted_entries(base, head, file);
    let m = modified_entries(base, head, file);
    let all = symbol_changes(base, head, file);
    assert forall|k: int| 0 <= k < all.len() implies change_is_real(#[trigger] all[k], base, head) by {
        if k < a.len() {
            assert(all[k] == a[k]);
        } else if k < a.len() + d.len() {
            assert(all[k] == d[k - a.len()]);
        } else {
            assert(all[k] == m[k - a.len() - d.len()]);
        }
    }
}

/// The view of a sequence of symbol diff entries.
pub open spec fn sym_views(s: Seq<SymbolDiffEntry>) -> Seq<SymbolDiffView> {
    s.map_values(|e: SymbolDiffEntry| e@)
}

/// The view of a sequence of file diff entries.
pub open spec fn file_views(s: Seq<FileDiffEntry>) -> Seq<FileDiffEntryView> {
    s.map_values(|e: FileDiffEntry| e@)
}

/// Index of the last symbol of `syms` named `name`.
fn last_named(syms: &[Symbol], name: &str) -> (r: Option<usize>)
    ensures
        match r {
            Some(i) => last_named_index(syms@, name@) == i,
            None => last_named_index(syms@, name@) == -1,
        },
{
    let mut r: Option<usize> = None;
    let mut i: usize = 0;
    while i < syms.len()
        invariant
            0 <= i <= syms@.len(),
            match r {
                Some(k) => last_named_index(syms@.take(i as int), name@) == k,
                None => last_named_index(syms@.take(i as int), name@) == -1,
            },
        decreases syms@.len() - i,
    {
        assert(syms@.take(i + 1).drop_last() =~= syms@.take(i as int));
        if same_text(syms[i].name.as_str(), name) {
            r = Some(i);
        }
        i += 1;
    }
    assert(syms@.take(i as int) =~= syms@);
    r
}

/// Whether some symbol of `syms` is named `name`.
fn has_name(syms: &[Symbol], name: &str) -> (b: bool)
    ensures
        b == names_contain(syms@, name@),
{
    proof {
        lemma_last_named_index(syms@, name@);
    }
    last_named(syms, name).is_some()
}

/// Compute symbol-level changes between the base and head versions of a file.
pub fn diff_file_symbols(base_syms: &[Symbol], head_syms: &[Symbol], file_path: &str) -> (r: Vec<SymbolDiffEntry>)
    ensures
        sym_views(r@) == symbol_changes(base_syms@, head_syms@, file_path@),
{
    let mut diffs: Vec<SymbolDiffEntry> = Vec::new();
    let ghost base = base_syms@;
    let ghost head = head_syms@;
    let ghost file = file_path@;

    // Symbols in head but not base → Added
    let mut i: usize = 0;
    while i < head_syms.len()
        invariant
            0 <= i <= head.len(),
            base == base_syms@,
            head == head_syms@,
            file == file_path@,
            sym_views(diffs@) == added_entries(base, head.take(i as int), file),
        decreases head.len() - i,
    {
        let sym = &head_syms[i];
        assert(head.take(i + 1).drop_last() =~= head.take(i as int));
        if !has_name(base_syms, sym.name.as_str()) {
            diffs.push(SymbolDiffEntry {
                name: sym.name.clone(),
                file: file_path.to_owned(),
                kind: sym.kind,
                change: SymbolChange::Added,
            });
        }
        assert(sym_views(diffs@) =~= added_entries(base, head.take(i + 1), file));
        i += 1;
    }
    assert(head.take(i as int) =~= head);
    let ghost added = sym_views(diffs@);

    // Symbols in base but not head → Deleted
    let mut i: usize = 0;
    while i < base_syms.len()
        invariant
            0 <= i <= base.len(),
            base == base_syms@,
            head == head_syms@,
            file == file_path@,
            added == added_entries(base, head, file),
            sym_views(diffs@) == added + deleted_entries(base.take(i as int), head, file),
        decreases base.len() - i,
    {
        let sym = &base_syms[i];
        assert(base.take(i + 1).drop_last() =~= base.take(i as int));
        assert(base.take(i + 1).last() == base[i as int]);
        let ghost prev = sym_views(diffs@);
        if !has_name(head_syms, sym.name.as_str()) {
            diffs.push(SymbolDiffEntry {
                name: sym.name.clone(),
                file: file_path.to_owned(),
                kind: sym.kind,
                change: SymbolChange::Deleted,
            });
        }
        assert(sym_views(diffs@) =~= added + deleted_entries(base.take(i + 1), head, file)) by {
            assert((added + deleted_entries(base.take(i as int), head, file)).push(
                deleted_view(sym.name@, file, sym.kind),
            ) =~= added + deleted_entries(base.take(i as int), head, file).push(
                deleted_view(sym.name@, file, sym.kind),
            ));
        }
        i += 1;
    }
    assert(base.take(i as int) =~= base);
    let ghost added_deleted = sym_views(diffs@);

    // Symbols in both → compare
    let mut i: usize = 0;
    while i < head_syms.len()
        invariant
            0 <= i <= head.len(),
            base == base_syms@,
            head == head_syms@,
            file == file_path@,
            added_deleted == added_entries(base, head, file) + deleted_entries(base, head, file),
            sym_views(diffs@) == added_deleted + modified_entries(base, head.take(i as int), file),
        decreases head.len() - i,
    {
        let sym = &head_syms[i];
        assert(head.take(i + 1).drop_last() =~= head.take(i as int));
        assert(head.take(i + 1).last() == head[i as int]);
        proof {
            lemma_last_named_index(base, sym.name@);
        }
        if let Some(bi) = last_named(base_syms, sym.name.as_str()) {
            let base_sym = &base_syms[bi];
            let signature_changed = !same_text(base_sym.signature.as_str(), sym.signature.as_str());
            let body_changed = signature_changed || base_sym.body_hash != sym.body_hash;
            if signature_changed || body_changed {
                diffs.push(SymbolDiffEntry {
                    name: sym.name.clone(),
                    file: file_path.to_owned(),
                    kind: sym.kind,
                    change: SymbolChange::Modified {
                        signature_changed,
                        old_signature: base_sym.signature.clone(),
                        new_signature: sym.signature.clone(),
                        body_changed,
                    },
                });
            }
        }
        assert(sym_views(diffs@) =~= added_deleted + modified_entries(base, head.take(i + 1), file)) by {
            let bi = last_named_index(base, sym.name@);
            if bi >= 0 {
                let e = modified_view(base[bi], head[i as int], file);
                assert((added_deleted + modified_entries(base, head.take(i as int), file)).push(e)
                    =~= added_deleted + modified_entries(base, head.take(i as int), file).push(e));
            }
        }
        i += 1;
    }
    assert(head.take(i as int) =~= head);
    diffs
}


// ---------------------------------------------------------------------------
// Diff of one changed file
// ---------------------------------------------------------------------------

/// Every symbol of `syms` as an addition to (or deletion from) `file`.
pub open spec fn all_as(syms: Seq<Symbol>, file: Seq<char>, added: bool) -> Seq<SymbolDiffView> {
    syms.map_values(
        |s: Symbol|
            if added {
                added_view(s.name@, file, s.kind)
            } else {
                deleted_view(s.name@, file, s.kind)
            },
    )
}

/// The file entry and symbol changes for one file of `git diff`: an added
/// file adds every head symbol, a deleted file deletes every base symbol, a
/// modified file is diffed by symbol name, and a renamed file diffs the base
/// symbols of the old path against the head symbols of the new one. The
/// language comes from the head tree (the base tree for a deleted file).
pub open spec fn process_spec(g: FileDiffView, base: ProjectIndex, head: ProjectIndex) -> (FileDiffEntryView, Seq<SymbolDiffView>) {
    let p = g.path;
    match g.status {
        FileStatusView::Added => (
            FileDiffEntryView {
                path: p,
                status: FileChangeStatus::Added,
                old_path: None,
                language: language_of(head.files@, p),
            },
            all_as(symbols_in_file(head.symbols@, p), p, true),
        ),
        FileStatusView::Deleted => (
            FileDiffEntryView {
                path: p,
                status: FileChangeStatus::Deleted,
                old_path: None,
                language: language_of(base.files@, p),
            },
            all_as(symbols_in_file(base.symbols@, p), p, false),
        ),
        FileStatusView::Modified => (
            FileDiffEntryView {
                path: p,
                status: FileChangeStatus::Modified,
                old_path: None,
                language: language_of(head.files@, p),
            },
            symbol_changes(symbols_in_file(base.symbols@, p), symbols_in_file(head.symbols@, p), p),
        ),
        FileStatusView::Renamed { from } => (
            FileDiffEntryView {
                path: p,
                status: FileChangeStatus::Renamed,
                old_path: Some(from),
                language: language_of(head.files@, p),
            },
            symbol_changes(symbols_in_file(base.symbols@, from), symbols_in_file(head.symbols@, p), p),
        ),
    }
}

/// Every symbol of `syms` as an addition to (or deletion from) `file`.
fn all_symbols_as(syms: &Vec<Symbol>, file: &str, added: bool) -> (r: Vec<SymbolDiffEntry>)
    ensures
        sym_views(r@) == all_as(syms@, file@, added),
{
    let mut r: Vec<SymbolDiffEntry> = Vec::new();
    let mut i: usize = 0;
    while i < syms.len()
        invariant
            0 <= i <= syms@.len(),
            r@.len() == i,
            sym_views(r@) == all_as(syms@.take(i as int), file@, added),
        decreases syms@.len() - i,
    {
        let s = &syms[i];
        let ghost old_r = r@;
        let e = SymbolDiffEntry {
            name: s.name.clone(),
            file: file.to_owned(),
            kind: s.kind,
            change: if added { SymbolChange::Added } else { SymbolChange::Deleted },
        };
        assert(e@ == (if added { added_view(s.name@, file@, s.kind) } else { deleted_view(s.name@, file@, s.kind) }));
        r.push(e);
        assert(r@ == old_r.push(e));
        assert(sym_views(r@) =~= sym_views(old_r).push(e@));
        assert(syms@.take(i + 1)[i as int] == syms@[i as int]);
        assert forall|k: int| 0 <= k < i implies syms@.take(i + 1)[k] == syms@.take(i as int)[k] by {}
        assert(sym_views(r@) =~= all_as(syms@.take(i + 1), file@, added));
        i += 1;
    }
    assert(syms@.take(i as int) =~= syms@);
    r
}

/// The file entry and symbol changes for one file reported by `git diff`.
pub fn process_file_diff(git_diff: &FileDiff, base_project: &ProjectIndex, head_project: &ProjectIndex) -> (r: (FileDiffEntry, Vec<SymbolDiffEntry>))
    ensures
        (r.0@, sym_views(r.1@)) == process_spec(git_diff@, *base_project, *head_project),
{
    let path = git_diff.path.as_str();
    match &git_diff.status {
        FileStatus::Added => {
            let language = head_project.language_for_file(path);
            let head_syms = head_project.list_by_file(path);
            let sym_diffs = all_symbols_as(&head_syms, path, true);
            let entry = FileDiffEntry {
                path: git_diff.path.clone(),
                status: FileChangeStatus::Added,
                old_path: None,
                language,
            };
            (entry, sym_diffs)
        },
        FileStatus::Deleted => {
            let language = base_project.language_for_file(path);
            let base_syms = base_project.list_by_file(path);
            let sym_diffs = all_symbols_as(&base_syms, path, false);
            let entry = FileDiffEntry {
                path: git_diff.path.clone(),
                status: FileChangeStatus::Deleted,
                old_path: None,
                language,
            };
            (entry, sym_diffs)
        },
        FileStatus::Modified => {
            let language = head_project.language_for_file(path);
            let base_syms = base_project.list_by_file(path);
            let head_syms = head_project.list_by_file(path);
            let sym_diffs = diff_file_symbols(base_syms.as_slice(), head_syms.as_slice(), path);
            let entry = FileDiffEntry {
                path: git_diff.path.clone(),
                status: FileChangeStatus::Modified,
                old_path: None,
                language,
            };
            (entry, sym_diffs)
        },
        FileStatus::Renamed { from } => {
            let language = head_project.language_for_file(path);
            // Old symbols of `from` are diffed by name against new symbols of `path`.
            let base_syms = base_project.list_by_file(from.as_str());
            let head_syms = head_project.list_by_file(path);
            let sym_diffs = diff_file_symbols(base_syms.as_slice(), head_syms.as_slice(), path);
            let entry = FileDiffEntry {
                path: git_diff.path.clone(),
                status: FileChangeStatus::Renamed,
                old_path: Some(from.clone()),
                language,
            };
            (entry, sym_diffs)
        },
    }
}


// ---------------------------------------------------------------------------
// Cross-file moves
// ---------------------------------------------------------------------------

pub open spec fn is_change(e: SymbolDiffView, deleted: bool) -> bool {
    if deleted {
        e.change is Deleted
    } else {
        e.change is Added
    }
}

/// Index of the first deletion (or addition) of a symbol named `name`, or -1.
pub open spec fn first_change(s: Seq<SymbolDiffView>, name: Seq<char>, deleted: bool) -> int
    decreases s.len(),
{
    if s.len() == 0 {
        -1
    } else if is_change(s[0], deleted) && s[0].name == name {
        0
    } else {
        let r = first_change(s.drop_first(), name, deleted);
        if r < 0 {
            -1
        } else {
            r + 1
        }
    }
}

pub proof fn lemma_first_change(s: Seq<SymbolDiffView>, name: Seq<char>, deleted: bool)
    ensures
        -1 <= first_change(s, name, deleted) < s.len(),
        first_change(s, name, deleted) >= 0 ==> is_change(s[first_change(s, name, deleted)], deleted)
            && s[first_change(s, name, deleted)].name == name,
        forall|j: int|
            0 <= j < s.len() && (first_change(s, name, deleted) < 0 || j < first_change(s, name, deleted))
                ==> !(is_change(#[trigger] s[j], deleted) && s[j].name == name),
    decreases s.len(),
{
    if s.len() > 0 && !(is_change(s[0], deleted) && s[0].name == name) {
        lemma_first_change(s.drop_first(), name, deleted);
        assert forall|j: int|
            0 <= j < s.len() && (first_change(s, name, deleted) < 0 || j < first_change(s, name, deleted))
                implies !(is_change(#[trigger] s[j], deleted) && s[j].name == name) by {
            if j > 0 {
                assert(s[j] == s.drop_first()[j - 1]);
            }
        }
    }
}

/// The first deletion of its name, with a first addition of that name in
/// another file: it becomes a move.
pub open spec fn matched_deleted(s: Seq<SymbolDiffView>, i: int) -> bool {
    &&& first_change(s, s[i].name, true) == i
    &&& first_change(s, s[i].name, false) >= 0
    &&& s[first_change(s, s[i].name, false)].file != s[i].file
}

/// The first addition of its name, with a first deletion of that name in
/// another file: it is absorbed by the move.
pub open spec fn matched_added(s: Seq<SymbolDiffView>, i: int) -> bool {
    &&& first_change(s, s[i].name, false) == i
    &&& first_change(s, s[i].name, true) >= 0
    &&& s[first_change(s, s[i].name, true)].file != s[i].file
}

/// Signature and body comparison of a symbol across the two snapshots;
/// both false when either side lacks the symbol.
pub open spec fn compare_spec(
    name: Seq<char>,
    old_file: Seq<char>,
    new_file: Seq<char>,
    base: ProjectIndex,
    head: ProjectIndex,
) -> (bool, bool) {
    match (find_symbol(base.symbols@, old_file, name), find_symbol(head.symbols@, new_file, name)) {
        (Some(b), Some(h)) => {
            let sig = b.signature@ != h.signature@;
            (sig, sig || b.body_hash != h.body_hash)
        },
        _ => (false, false),
    }
}

/// The move that replaces the deletion at `i`.
pub open spec fn moved_view(s: Seq<SymbolDiffView>, i: int, base: ProjectIndex, head: ProjectIndex) -> SymbolDiffView {
    let new_file = s[first_change(s, s[i].name, false)].file;
    let (sig, body) = compare_spec(s[i].name, s[i].file, new_file, base, head);
    SymbolDiffView {
        name: s[i].name,
        file: new_file,
        kind: s[i].kind,
        change: SymbolChangeView::Moved {
            old_file: s[i].file,
            old_name: None,
            signature_changed: sig,
            body_changed: body,
        },
    }
}

/// The first `n` entries of `s` after move detection.
pub open spec fn moves_applied(s: Seq<SymbolDiffView>, n: int, base: ProjectIndex, head: ProjectIndex) -> Seq<SymbolDiffView>
    decreases n,
{
    if n <= 0 {
        seq![]
    } else {
        let prev = moves_applied(s, n - 1, base, head);
        let i = n - 1;
        if matched_added(s, i) {
            prev
        } else if matched_deleted(s, i) {
            prev.push(moved_view(s, i, base, head))
        } else {
            prev.push(s[i])
        }
    }
}

/// Move detection: for each name, the first deletion and the first addition
/// in different files become one `Moved` entry in the new file, at the
/// position of the deletion; every other entry stays as it is.
pub open spec fn detect_moves_spec(s: Seq<SymbolDiffView>, base: ProjectIndex, head: ProjectIndex) -> Seq<SymbolDiffView> {
    moves_applied(s, s.len() as int, base, head)
}

fn is_deleted(c: &SymbolChange) -> (b: bool)
    ensures
        b == (c@ is Deleted),
{
    match c {
        SymbolChange::Deleted => true,
        _ => false,
    }
}

fn is_added(c: &SymbolChange) -> (b: bool)
    ensures
        b == (c@ is Added),
{
    match c {
        SymbolChange::Added => true,
        _ => false,
    }
}

/// Index of the first deletion (or addition) of a symbol named `name`.
fn first_change_index(s: &Vec<SymbolDiffEntry>, name: &str, deleted: bool) -> (r: Option<usize>)
    ensures
        match r {
            Some(k) => first_change(sym_views(s@), name@, deleted) == k,
            None => first_change(sym_views(s@), name@, deleted) < 0,
        },
{
    let ghost v = sym_views(s@);
    proof {
        lemma_first_change(v, name@, deleted);
    }
    let mut i: usize = 0;
    while i < s.len()
        invariant
            0 <= i <= s@.len(),
            v == sym_views(s@),
            forall|j: int| 0 <= j < i ==> !(is_change(#[trigger] v[j], deleted) && v[j].name == name@),
        decreases s@.len() - i,
    {
        let e = &s[i];
        let hit = if deleted { is_deleted(&e.change) } else { is_added(&e.change) };
        assert(v[i as int] == e@);
        if hit && same_text(e.name.as_str(), name) {
            proof {
                lemma_first_change(v, name@, deleted);
            }
            return Some(i);
        }
        i += 1;
    }
    proof {
        lemma_first_change(v, name@, deleted);
    }
    None
}

/// Compare signature and body of a symbol across base/head projects.
fn compare_symbol_bodies(
    name: &str,
    old_file: &str,
    new_file: &str,
    base_project: &ProjectIndex,
    head_project: &ProjectIndex,
) -> (r: (bool, bool))
    ensures
        r == compare_spec(name@, old_file@, new_file@, *base_project, *head_project),
{
    let base_sym = base_project.get(old_file, name);
    let head_sym = head_project.get(new_file, name);
    match (base_sym, head_sym) {
        (Some(b), Some(h)) => {
            let sig_changed = !same_text(b.signature.as_str(), h.signature.as_str());
            let body_changed = sig_changed || b.body_hash != h.body_hash;
            (sig_changed, body_changed)
        },
        _ => (false, false),
    }
}

/// Post-processing pass: find cross-file moves by matching Deleted+Added pairs
/// with the same symbol name in different files. Replaces the matched pair with
/// a single `Moved` entry.
pub fn detect_moves(symbol_diffs: &mut Vec<SymbolDiffEntry>, base_project: &ProjectIndex, head_project: &ProjectIndex)
    ensures
        sym_views(final(symbol_diffs)@) == detect_moves_spec(sym_views(old(symbol_diffs)@), *base_project, *head_project),
{
    let ghost s = sym_views(symbol_diffs@);
    let mut out: Vec<SymbolDiffEntry> = Vec::new();
    let n = symbol_diffs.len();
    let mut i: usize = 0;
    while i < n
        invariant
            0 <= i <= n == symbol_diffs@.len(),
            s == sym_views(symbol_diffs@),
            s == sym_views(old(symbol_diffs)@),
            sym_views(out@) == moves_applied(s, i as int, *base_project, *head_project),
        decreases n - i,
    {
        let e = &symbol_diffs[i];
        assert(s[i as int] == e@);
        let ghost prev = out@;
        if is_added(&e.change) {
            let first_add = first_change_index(symbol_diffs, e.name.as_str(), false);
            let first_del = first_change_index(symbol_diffs, e.name.as_str(), true);
            proof {
                lemma_first_change(s, e.name@, true);
                lemma_first_change(s, e.name@, false);
            }
            let absorbed = match (first_add, first_del) {
                (Some(a), Some(d)) => a == i && !same_text(symbol_diffs[d].file.as_str(), e.file.as_str()),
                _ => false,
            };
            proof {
                lemma_first_change(s, e.name@, true);
                lemma_first_change(s, e.name@, false);
                if let Some(d) = first_del {
                    assert(s[d as int] == symbol_diffs@[d as int]@);
                }
            }
            assert(matched_added(s, i as int) == absorbed);
            assert(!matched_deleted(s, i as int));
            if !absorbed {
                out.push(e.clone());
                assert(sym_views(out@) =~= sym_views(prev).push(e@));
            }
        } else if is_deleted(&e.change) {
            let first_del = first_change_index(symbol_diffs, e.name.as_str(), true);
            let first_add = first_change_index(symbol_diffs, e.name.as_str(), false);
            proof {
                lemma_first_change(s, e.name@, true);
                lemma_first_change(s, e.name@, false);
                if let Some(a) = first_add {
                    assert(s[a as int] == symbol_diffs@[a as int]@);
                }
            }
            let mut pushed = false;
            if let (Some(d), Some(a)) = (first_del, first_add) {
                if d == i && !same_text(symbol_diffs[a].file.as_str(), e.file.as_str()) {
                    let new_file = symbol_diffs[a].file.clone();
                    let (signature_changed, body_changed) = compare_symbol_bodies(
                        e.name.as_str(),
                        e.file.as_str(),
                        new_file.as_str(),
                        base_project,
                        head_project,
                    );
                    let m = SymbolDiffEntry {
                        name: e.name.clone(),
                        file: new_file,
                        kind: e.kind,
                        change: SymbolChange::Moved {
                            old_file: e.file.clone(),
                            old_name: None,
                            signature_changed,
                            body_changed,
                        },
                    };
                    assert(m@ == moved_view(s, i as int, *base_project, *head_project));
                    out.push(m);
                    assert(sym_views(out@) =~= sym_views(prev).push(m@));
                    pushed = true;
                }
            }
            assert(!matched_added(s, i as int));
            assert(pushed == matched_deleted(s, i as int));
            if !pushed {
                out.push(e.clone());
                assert(sym_views(out@) =~= sym_views(prev).push(e@));
            }
        } else {
            proof {
                lemma_first_change(s, e.name@, true);
                lemma_first_change(s, e.name@, false);
            }
            assert(!matched_added(s, i as int));
            assert(!matched_deleted(s, i as int));
            out.push(e.clone());
            assert(sym_views(out@) =~= sym_views(prev).push(e@));
        }
        i += 1;
    }
    *symbol_diffs = out;
}


// ---------------------------------------------------------------------------
// Statistics
// ---------------------------------------------------------------------------

/// Number of file entries with status `st`.
pub open spec fn count_files(fs: Seq<FileDiffEntryView>, st: FileChangeStatus) -> nat
    decreases fs.len(),
{
    if fs.len() == 0 {
        0
    } else {
        count_files(fs.drop_last(), st) + if fs.last().status == st {
            1nat
        } else {
            0nat
        }
    }
}

/// 0 for an addition, 1 for a deletion, 2 for a modification, 3 for a move.
pub open spec fn change_index(c: SymbolChangeView) -> int {
    match c {
        SymbolChangeView::Added => 0,
        SymbolChangeView::Deleted => 1,
        SymbolChangeView::Modified { .. } => 2,
        SymbolChangeView::Moved { .. } => 3,
    }
}

/// Number of symbol entries whose change has index `k` (see `change_index`).
pub open spec fn count_symbols(ss: Seq<SymbolDiffView>, k: int) -> nat
    decreases ss.len(),
{
    if ss.len() == 0 {
        0
    } else {
        count_symbols(ss.drop_last(), k) + if change_index(ss.last().change) == k {
            1nat
        } else {
            0nat
        }
    }
}

/// The counts of file and symbol changes by type.
pub open spec fn stats_spec(fs: Seq<FileDiffEntryView>, ss: Seq<SymbolDiffView>) -> DiffStats {
    DiffStats {
        files_added: count_files(fs, FileChangeStatus::Added) as usize,
        files_deleted: count_files(fs, FileChangeStatus::Deleted) as usize,
        files_modified: count_files(fs, FileChangeStatus::Modified) as usize,
        files_renamed: count_files(fs, FileChangeStatus::Renamed) as usize,
        symbols_added: count_symbols(ss, 0) as usize,
        symbols_deleted: count_symbols(ss, 1) as usize,
        symbols_modified: count_symbols(ss, 2) as usize,
        symbols_moved: count_symbols(ss, 3) as usize,
    }
}

/// The file counts add up to the number of file entries.
pub proof fn lemma_count_files_total(fs: Seq<FileDiffEntryView>)
    ensures
        count_files(fs, FileChangeStatus::Added) + count_files(fs, FileChangeStatus::Deleted)
            + count_files(fs, FileChangeStatus::Modified) + count_files(fs, FileChangeStatus::Renamed)
            == fs.len(),
    decreases fs.len(),
{
    if fs.len() > 0 {
        lemma_count_files_total(fs.drop_last());
    }
}

/// The symbol counts add up to the number of symbol entries.
pub proof fn lemma_count_symbols_total(ss: Seq<SymbolDiffView>)
    ensures
        count_symbols(ss, 0) + count_symbols(ss, 1) + count_symbols(ss, 2) + count_symbols(ss, 3)
            == ss.len(),
    decreases ss.len(),
{
    if ss.len() > 0 {
        lemma_count_symbols_total(ss.drop_last());
    }
}

/// Counts file entries by status and symbol entries by change type.
fn compute_stats(file_diffs: &Vec<FileDiffEntry>, symbol_diffs: &Vec<SymbolDiffEntry>) -> (stats: DiffStats)
    ensures
        stats == stats_spec(file_views(file_diffs@), sym_views(symbol_diffs@)),
{
    let mut stats = DiffStats::default();
    let ghost fs = file_views(file_diffs@);
    let ghost ss = sym_views(symbol_diffs@);
    let mut i: usize = 0;
    while i < file_diffs.len()
        invariant
            0 <= i <= file_diffs@.len(),
            fs == file_views(file_diffs@),
            stats.files_added == count_files(fs.take(i as int), FileChangeStatus::Added),
            stats.files_deleted == count_files(fs.take(i as int), FileChangeStatus::Deleted),
            stats.files_modified == count_files(fs.take(i as int), FileChangeStatus::Modified),
            stats.files_renamed == count_files(fs.take(i as int), FileChangeStatus::Renamed),
            stats.symbols_added == 0,
            stats.symbols_deleted == 0,
            stats.symbols_modified == 0,
            stats.symbols_moved == 0,
        decreases file_diffs@.len() - i,
    {
        proof {
            lemma_count_files_total(fs.take(i as int));
        }
        assert(fs.take(i + 1).drop_last() =~= fs.take(i as int));
        assert(fs.take(i + 1).last() == file_diffs@[i as int]@);
        match file_diffs[i].status {
            FileChangeStatus::Added => stats.files_added += 1,
            FileChangeStatus::Deleted => stats.files_deleted += 1,
            FileChangeStatus::Modified => stats.files_modified += 1,
            FileChangeStatus::Renamed => stats.files_renamed += 1,
        }
        i += 1;
    }
    assert(fs.take(i as int) =~= fs);
    let mut j: usize = 0;
    while j < symbol_diffs.len()
        invariant
            0 <= j <= symbol_diffs@.len(),
            ss == sym_views(symbol_diffs@),
            stats.files_added == count_files(fs, FileChangeStatus::Added),
            stats.files_deleted == count_files(fs, FileChangeStatus::Deleted),
            stats.files_modified == count_files(fs, FileChangeStatus::Modified),
            stats.files_renamed == count_files(fs, FileChangeStatus::Renamed),
            stats.symbols_added == count_symbols(ss.take(j as int), 0),
            stats.symbols_deleted == count_symbols(ss.take(j as int), 1),
            stats.symbols_modified == count_symbols(ss.take(j as int), 2),
            stats.symbols_moved == count_symbols(ss.take(j as int), 3),
        decreases symbol_diffs@.len() - j,
    {
        proof {
            lemma_count_symbols_total(ss.take(j as int));
        }
        assert(ss.take(j + 1).drop_last() =~= ss.take(j as int));
        assert(ss.take(j + 1).last() == symbol_diffs@[j as int]@);
        match &symbol_diffs[j].change {
            SymbolChange::Added => stats.symbols_added += 1,
            SymbolChange::Deleted => stats.symbols_deleted += 1,
            SymbolChange::Modified { .. } => stats.symbols_modified += 1,
            SymbolChange::Moved { .. } => stats.symbols_moved += 1,
        }
        j += 1;
    }
    assert(ss.take(j as int) =~= ss);
    stats
}

/// Whether `d` holds exactly the given file and symbol entries, with the
/// statistics that count them.
pub open spec fn diff_matches(d: ReviewDiff, fs: Seq<FileDiffEntryView>, ss: Seq<SymbolDiffView>) -> bool {
    &&& file_views(d.file_diffs@) == fs
    &&& sym_views(d.symbol_diffs@) == ss
    &&& d.stats == stats_spec(fs, ss)
}

// ---------------------------------------------------------------------------
// Full and incremental review diffs
// ---------------------------------------------------------------------------

pub open spec fn git_views(gs: Seq<FileDiff>) -> Seq<FileDiffView> {
    gs.map_values(|g: FileDiff| g@)
}

/// The file entry of each git-reported file, in order.
pub open spec fn processed_files(gs: Seq<FileDiffView>, base: ProjectIndex, head: ProjectIndex) -> Seq<FileDiffEntryView> {
    gs.map_values(|g: FileDiffView| process_spec(g, base, head).0)
}

/// The symbol changes of every git-reported file, concatenated in order.
pub open spec fn processed_symbols(gs: Seq<FileDiffView>, base: ProjectIndex, head: ProjectIndex) -> Seq<SymbolDiffView>
    decreases gs.len(),
{
    if gs.len() == 0 {
        seq![]
    } else {
        processed_symbols(gs.drop_last(), base, head) + process_spec(gs.last(), base, head).1
    }
}

/// Compute the full semantic diff between `base_project` and `head_project`
/// using the file-level `git_diffs` to scope which files to examine.
pub fn compute_review_diff(base_project: &ProjectIndex, head_project: &ProjectIndex, git_diffs: &[FileDiff]) -> (r: ReviewDiff)
    ensures
        diff_matches(
            r,
            processed_files(git_views(git_diffs@), *base_project, *head_project),
            detect_moves_spec(processed_symbols(git_views(git_diffs@), *base_project, *head_project), *base_project, *head_project),
        ),
{
    let ghost gs = git_views(git_diffs@);
    let mut file_diffs: Vec<FileDiffEntry> = Vec::new();
    let mut symbol_diffs: Vec<SymbolDiffEntry> = Vec::new();
    let mut i: usize = 0;
    while i < git_diffs.len()
        invariant
            0 <= i <= git_diffs@.len(),
            gs == git_views(git_diffs@),
            file_views(file_diffs@) == processed_files(gs.take(i as int), *base_project, *head_project),
            sym_views(symbol_diffs@) == processed_symbols(gs.take(i as int), *base_project, *head_project),
        decreases git_diffs@.len() - i,
    {
        let (entry, sym_changes) = process_file_diff(&git_diffs[i], base_project, head_project);
        assert(gs.take(i + 1).drop_last() =~= gs.take(i as int));
        assert(gs.take(i + 1).last() == git_diffs@[i as int]@);
        let ghost old_files = file_diffs@;
        let ghost old_syms = symbol_diffs@;
        file_diffs.push(entry);
        let mut sc = sym_changes;
        symbol_diffs.append(&mut sc);
        assert(file_views(file_diffs@) =~= processed_files(gs.take(i + 1), *base_project, *head_project)) by {
            assert(file_diffs@ == old_files.push(entry));
            assert(file_views(old_files.push(entry)) =~= file_views(old_files).push(entry@));
            assert(processed_files(gs.take(i + 1), *base_project, *head_project) =~= processed_files(
                gs.take(i as int),
                *base_project,
                *head_project,
            ).push(process_spec(gs[i as int], *base_project, *head_project).0));
        }
        assert(sym_views(symbol_diffs@) =~= processed_symbols(gs.take(i + 1), *base_project, *head_project)) by {
            assert(symbol_diffs@ == old_syms + sym_changes@);
        }
        i += 1;
    }
    assert(gs.take(i as int) =~= gs);

    // Cross-file move/rename detection: converts Deleted+Added pairs into Moved.
    detect_moves(&mut symbol_diffs, base_project, head_project);

    // Compute stats from the final (post-move-detection) symbol list.
    let stats = compute_stats(&file_diffs, &symbol_diffs);
    ReviewDiff { file_diffs, symbol_diffs, stats }
}


/// Whether one of `paths` is `p`.
pub open spec fn path_listed(paths: Seq<String>, p: Seq<char>) -> bool {
    exists|i: int| 0 <= i < paths.len() && (#[trigger] paths[i])@ == p
}

/// Index of the last file entry for path `p`, or -1.
pub open spec fn last_entry_index(fs: Seq<FileDiffEntryView>, p: Seq<char>) -> int
    decreases fs.len(),
{
    if fs.len() == 0 {
        -1
    } else if fs.last().path == p {
        fs.len() - 1
    } else {
        last_entry_index(fs.drop_last(), p)
    }
}

pub proof fn lemma_last_entry_index(fs: Seq<FileDiffEntryView>, p: Seq<char>)
    ensures
        -1 <= last_entry_index(fs, p) < fs.len(),
        last_entry_index(fs, p) >= 0 ==> fs[last_entry_index(fs, p)].path == p,
    decreases fs.len(),
{
    if fs.len() > 0 {
        lemma_last_entry_index(fs.drop_last(), p);
    }
}

/// A file is reused from the old diff when it did not change since the
/// last update and the old diff has an entry for it.
pub open spec fn reuses(g: FileDiffView, old_files: Seq<FileDiffEntryView>, changed: Seq<String>) -> bool {
    !path_listed(changed, g.path) && last_entry_index(old_files, g.path) >= 0
}

/// The file entries of an incremental update: reused entries come from the
/// old diff (its last entry for the path), the others are recomputed.
pub open spec fn incremental_files(
    gs: Seq<FileDiffView>,
    old_files: Seq<FileDiffEntryView>,
    changed: Seq<String>,
    base: ProjectIndex,
    head: ProjectIndex,
) -> Seq<FileDiffEntryView> {
    gs.map_values(
        |g: FileDiffView|
            if reuses(g, old_files, changed) {
                old_files[last_entry_index(old_files, g.path)]
            } else {
                process_spec(g, base, head).0
            },
    )
}

/// Whether one of `gs` names path `p`.
pub open spec fn git_paths_contain(gs: Seq<FileDiffView>, p: Seq<char>) -> bool {
    exists|i: int| 0 <= i < gs.len() && (#[trigger] gs[i]).path == p
}

/// The old symbol entries of file `p`, in order.
pub open spec fn syms_of_file(ss: Seq<SymbolDiffView>, p: Seq<char>) -> Seq<SymbolDiffView> {
    ss.filter(|e: SymbolDiffView| e.file == p)
}

/// The symbol entries of an incremental update, before move detection:
/// recomputed files contribute their fresh changes, a reused file its old
/// entries (once, at its first occurrence).
pub open spec fn incremental_symbols(
    gs: Seq<FileDiffView>,
    old_files: Seq<FileDiffEntryView>,
    old_syms: Seq<SymbolDiffView>,
    changed: Seq<String>,
    base: ProjectIndex,
    head: ProjectIndex,
) -> Seq<SymbolDiffView>
    decreases gs.len(),
{
    if gs.len() == 0 {
        seq![]
    } else {
        let g = gs.last();
        let prev = incremental_symbols(gs.drop_last(), old_files, old_syms, changed, base, head);
        if !reuses(g, old_files, changed) {
            prev + process_spec(g, base, head).1
        } else if !git_paths_contain(gs.drop_last(), g.path) {
            prev + syms_of_file(old_syms, g.path)
        } else {
            prev
        }
    }
}

fn path_in(paths: &[String], p: &str) -> (b: bool)
    ensures
        b == path_listed(paths@, p@),
{
    let mut i: usize = 0;
    while i < paths.len()
        invariant
            0 <= i <= paths@.len(),
            forall|j: int| 0 <= j < i ==> (#[trigger] paths@[j])@ != p@,
        decreases paths@.len() - i,
    {
        if same_text(paths[i].as_str(), p) {
            return true;
        }
        i += 1;
    }
    false
}

fn last_entry(fs: &Vec<FileDiffEntry>, p: &str) -> (r: Option<usize>)
    ensures
        match r {
            Some(k) => last_entry_index(file_views(fs@), p@) == k,
            None => last_entry_index(file_views(fs@), p@) == -1,
        },
{
    let ghost v = file_views(fs@);
    let mut r: Option<usize> = None;
    let mut i: usize = 0;
    while i < fs.len()
        invariant
            0 <= i <= fs@.len(),
            v == file_views(fs@),
            match r {
                Some(k) => last_entry_index(v.take(i as int), p@) == k,
                None => last_entry_index(v.take(i as int), p@) == -1,
            },
        decreases fs@.len() - i,
    {
        assert(v.take(i + 1).drop_last() =~= v.take(i as int));
        assert(v.take(i + 1).last() == fs@[i as int]@);
        if same_text(fs[i].path.as_str(), p) {
            r = Some(i);
        }
        i += 1;
    }
    assert(v.take(i as int) =~= v);
    r
}

fn earlier_path(gs: &[FileDiff], k: usize, p: &str) -> (b: bool)
    requires
        k <= gs@.len(),
    ensures
        b == git_paths_contain(git_views(gs@).take(k as int), p@),
{
    let ghost v = git_views(gs@).take(k as int);
    let mut i: usize = 0;
    while i < k
        invariant
            0 <= i <= k <= gs@.len(),
            v == git_views(gs@).take(k as int),
            forall|j: int| 0 <= j < i ==> (#[trigger] v[j]).path != p@,
        decreases k - i,
    {
        assert(v[i as int] == gs@[i as int]@);
        if same_text(gs[i].path.as_str(), p) {
            return true;
        }
        i += 1;
    }
    false
}

fn old_syms_of_file(ss: &Vec<SymbolDiffEntry>, p: &str) -> (r: Vec<SymbolDiffEntry>)
    ensures
        sym_views(r@) == syms_of_file(sym_views(ss@), p@),
{
    let ghost v = sym_views(ss@);
    let mut r: Vec<SymbolDiffEntry> = Vec::new();
    let mut i: usize = 0;
    while i < ss.len()
        invariant
            0 <= i <= ss@.len(),
            v == sym_views(ss@),
            sym_views(r@) == syms_of_file(v.take(i as int), p@),
        decreases ss@.len() - i,
    {
        proof {
            reveal_with_fuel(Seq::<_>::filter, 1);
        }
        assert(v.take(i + 1).drop_last() =~= v.take(i as int));
        assert(v.take(i + 1).last() == ss@[i as int]@);
        let ghost prev = r@;
        if same_text(ss[i].file.as_str(), p) {
            r.push(ss[i].clone());
            assert(sym_views(r@) =~= sym_views(prev).push(ss@[i as int]@));
        }
        i += 1;
    }
    assert(v.take(i as int) =~= v);
    r
}

/// Incrementally update a review diff after the head has advanced.
///
/// `full_base_git_diffs` is the full diff from `base_ref` to the new head ref.
/// `changed_paths` is the set of file paths that changed between the old head
/// and the new head — only these files are re-processed; all others reuse their
/// existing symbol diffs.
pub fn compute_incremental_diff(
    old_diff: &ReviewDiff,
    base_project: &ProjectIndex,
    head_project: &ProjectIndex,
    full_base_git_diffs: &[FileDiff],
    changed_paths: &[String],
) -> (r: ReviewDiff)
    ensures
        diff_matches(
            r,
            incremental_files(
                git_views(full_base_git_diffs@),
                file_views(old_diff.file_diffs@),
                changed_paths@,
                *base_project,
                *head_project,
            ),
            detect_moves_spec(
                incremental_symbols(
                    git_views(full_base_git_diffs@),
                    file_views(old_diff.file_diffs@),
                    sym_views(old_diff.symbol_diffs@),
                    changed_paths@,
                    *base_project,
                    *head_project,
                ),
                *base_project,
                *head_project,
            ),
        ),
{
    let ghost gs = git_views(full_base_git_diffs@);
    let ghost old_files = file_views(old_diff.file_diffs@);
    let ghost old_syms = sym_views(old_diff.symbol_diffs@);
    let ghost changed = changed_paths@;
    let mut file_diffs: Vec<FileDiffEntry> = Vec::new();
    let mut symbol_diffs: Vec<SymbolDiffEntry> = Vec::new();
    let mut i: usize = 0;
    while i < full_base_git_diffs.len()
        invariant
            0 <= i <= full_base_git_diffs@.len(),
            gs == git_views(full_base_git_diffs@),
            old_files == file_views(old_diff.file_diffs@),
            old_syms == sym_views(old_diff.symbol_diffs@),
            changed == changed_paths@,
            file_views(file_diffs@) == incremental_files(
                gs.take(i as int),
                old_files,
                changed,
                *base_project,
                *head_project,
            ),
            sym_views(symbol_diffs@) == incremental_symbols(
                gs.take(i as int),
                old_files,
                old_syms,
                changed,
                *base_project,
                *head_project,
            ),
        decreases full_base_git_diffs@.len() - i,
    {
        let git_diff = &full_base_git_diffs[i];
        let path = git_diff.path.as_str();
        assert(gs.take(i + 1).drop_last() =~= gs.take(i as int));
        assert(gs.take(i + 1).last() == git_diff@);
        let ghost g = git_diff@;
        let ghost prev_files = file_diffs@;
        let ghost prev_syms = symbol_diffs@;
        let old_entry = last_entry(&old_diff.file_diffs, path);
        let needs_recompute = path_in(changed_paths, path) || old_entry.is_none();
        assert(needs_recompute == !reuses(g, old_files, changed));
        proof {
            lemma_last_entry_index(old_files, g.path);
        }
        if needs_recompute {
            let (entry, sym_changes) = process_file_diff(git_diff, base_project, head_project);
            file_diffs.push(entry);
            let mut sc = sym_changes;
            symbol_diffs.append(&mut sc);
            assert(sym_views(symbol_diffs@) =~= sym_views(prev_syms) + sym_views(sym_changes@));
            assert(file_views(file_diffs@) =~= file_views(prev_files).push(entry@));
        } else {
            // File unchanged since last update: reuse the existing entries.
            let k = match old_entry {
                Some(k) => k,
                None => 0,
            };
            let entry = old_diff.file_diffs[k].clone();
            file_diffs.push(entry);
            assert(file_views(file_diffs@) =~= file_views(prev_files).push(entry@));
            if !earlier_path(full_base_git_diffs, i, path) {
                let mut old_syms_here = old_syms_of_file(&old_diff.symbol_diffs, path);
                let ghost here = old_syms_here@;
                symbol_diffs.append(&mut old_syms_here);
                assert(sym_views(symbol_diffs@) =~= sym_views(prev_syms) + sym_views(here));
            }
        }
        assert(file_views(file_diffs@) =~= incremental_files(
            gs.take(i + 1),
            old_files,
            changed,
            *base_project,
            *head_project,
        ));
        i += 1;
    }
    assert(gs.take(i as int) =~= gs);

    detect_moves(&mut symbol_diffs, base_project, head_project);
    let stats = compute_stats(&file_diffs, &symbol_diffs);
    ReviewDiff { file_diffs, symbol_diffs, stats }
}

// ---------------------------------------------------------------------------
// Laws
// ---------------------------------------------------------------------------

/// When every file of the new diff is among the changed paths, an
/// incremental update computes exactly what a full diff computes.
pub proof fn law_incremental_full_recompute(
    gs: Seq<FileDiffView>,
    old_files: Seq<FileDiffEntryView>,
    old_syms: Seq<SymbolDiffView>,
    changed: Seq<String>,
    base: ProjectIndex,
    head: ProjectIndex,
)
    requires
        forall|k: int| 0 <= k < gs.len() ==> path_listed(changed, (#[trigger] gs[k]).path),
    ensures
        incremental_files(gs, old_files, changed, base, head) == processed_files(gs, base, head),
        incremental_symbols(gs, old_files, old_syms, changed, base, head) == processed_symbols(gs, base, head),
    decreases gs.len(),
{
    assert(incremental_files(gs, old_files, changed, base, head) =~= processed_files(gs, base, head)) by {
        assert forall|k: int| 0 <= k < gs.len() implies !reuses(gs[k], old_files, changed) by {}
    }
    if gs.len() > 0 {
        assert forall|k: int| 0 <= k < gs.drop_last().len() implies path_listed(
            changed,
            (#[trigger] gs.drop_last()[k]).path,
        ) by {
            assert(gs.drop_last()[k] == gs[k]);
        }
        law_incremental_full_recompute(gs.drop_last(), old_files, old_syms, changed, base, head);
        assert(path_listed(changed, gs[gs.len() - 1].path));
    }
}

/// The statistics of a review diff count every entry exactly once: the file
/// counts add up to the number of changed files and the symbol counts to the
/// number of changed symbols.
pub proof fn law_stats_add_up(fs: Seq<FileDiffEntryView>, ss: Seq<SymbolDiffView>)
    requires
        fs.len() <= usize::MAX,
        ss.len() <= usize::MAX,
    ensures
        ({
            let st = stats_spec(fs, ss);
            &&& st.files_added + st.files_deleted + st.files_modified + st.files_renamed == fs.len()
            &&& st.symbols_added + st.symbols_deleted + st.symbols_modified + st.symbols_moved == ss.len()
        }),
{
    lemma_count_files_total(fs);
    lemma_count_symbols_total(ss);
}


/// With every file of the new git diff among the changed paths, the review
/// diff an incremental update returns (as `compute_incremental_diff`
/// states it) equals the one a full recomputation returns (as
/// `compute_review_diff` states it), whatever the old diff was.
pub proof fn law_incremental_equals_full(
    incremental: ReviewDiff,
    full: ReviewDiff,
    old_diff: ReviewDiff,
    base: ProjectIndex,
    head: ProjectIndex,
    gits: Seq<FileDiff>,
    changed: Seq<String>,
)
    requires
        forall|k: int| 0 <= k < gits.len() ==> path_listed(changed, (#[trigger] gits[k])@.path),
        diff_matches(
            incremental,
            incremental_files(git_views(gits), file_views(old_diff.file_diffs@), changed, base, head),
            detect_moves_spec(
                incremental_symbols(
                    git_views(gits),
                    file_views(old_diff.file_diffs@),
                    sym_views(old_diff.symbol_diffs@),
                    changed,
                    base,
                    head,
                ),
                base,
                head,
            ),
        ),
        diff_matches(
            full,
            processed_files(git_views(gits), base, head),
            detect_moves_spec(processed_symbols(git_views(gits), base, head), base, head),
        ),
    ensures
        file_views(incremental.file_diffs@) == file_views(full.file_diffs@),
        sym_views(incremental.symbol_diffs@) == sym_views(full.symbol_diffs@),
        incremental.stats == full.stats,
{
    let gs = git_views(gits);
    assert forall|k: int| 0 <= k < gs.len() implies path_listed(changed, (#[trigger] gs[k]).path) by {
        assert(gs[k] == gits[k]@);
    }
    law_incremental_full_recompute(
        gs,
        file_views(old_diff.file_diffs@),
        sym_views(old_diff.symbol_diffs@),
        changed,
        base,
        head,
    );
}

/// A review diff (as `compute_review_diff` states it) has one file entry
/// per git-reported file, in order and under its path; each file count is
/// the number of entries with that status, each symbol count the number of
/// changes of that kind, and the counts add up to the totals.
pub proof fn law_review_diff_counts(r: ReviewDiff, base: ProjectIndex, head: ProjectIndex, gits: Seq<FileDiff>)
    requires
        diff_matches(
            r,
            processed_files(git_views(gits), base, head),
            detect_moves_spec(processed_symbols(git_views(gits), base, head), base, head),
        ),
    ensures
        r.file_diffs@.len() == gits.len(),
        forall|i: int| 0 <= i < gits.len() ==> (#[trigger] r.file_diffs@[i]).path@ == gits[i]@.path,
        r.stats.files_added == count_files(file_views(r.file_diffs@), FileChangeStatus::Added),
        r.stats.files_deleted == count_files(file_views(r.file_diffs@), FileChangeStatus::Deleted),
        r.stats.files_modified == count_files(file_views(r.file_diffs@), FileChangeStatus::Modified),
        r.stats.files_renamed == count_files(file_views(r.file_diffs@), FileChangeStatus::Renamed),
        r.stats.symbols_added == count_symbols(sym_views(r.symbol_diffs@), 0),
        r.stats.symbols_deleted == count_symbols(sym_views(r.symbol_diffs@), 1),
        r.stats.symbols_modified == count_symbols(sym_views(r.symbol_diffs@), 2),
        r.stats.symbols_moved == count_symbols(sym_views(r.symbol_diffs@), 3),
        r.stats.files_added + r.stats.files_deleted + r.stats.files_modified + r.stats.files_renamed
            == r.file_diffs@.len(),
        r.stats.symbols_added + r.stats.symbols_deleted + r.stats.symbols_modified + r.stats.symbols_moved
            == r.symbol_diffs@.len(),
{
    let fs = file_views(r.file_diffs@);
    let ss = sym_views(r.symbol_diffs@);
    assert(r.file_diffs@.len() == r.file_diffs.len());
    assert(r.symbol_diffs@.len() == r.symbol_diffs.len());
    assert(fs.len() == r.file_diffs@.len());
    assert(ss.len() == r.symbol_diffs@.len());
    lemma_count_files_total(fs);
    lemma_count_symbols_total(ss);
    lemma_count_files_bound(fs, FileChangeStatus::Added);
    lemma_count_files_bound(fs, FileChangeStatus::Deleted);
    lemma_count_files_bound(fs, FileChangeStatus::Modified);
    lemma_count_files_bound(fs, FileChangeStatus::Renamed);
    lemma_count_symbols_bound(ss, 0);
    lemma_count_symbols_bound(ss, 1);
    lemma_count_symbols_bound(ss, 2);
    lemma_count_symbols_bound(ss, 3);
    assert forall|i: int| 0 <= i < gits.len() implies (#[trigger] r.file_diffs@[i]).path@ == gits[i]@.path by {
        assert(fs[i] == r.file_diffs@[i]@);
        assert(git_views(gits)[i] == gits[i]@);
        assert(process_spec(gits[i]@, base, head).0.path == gits[i]@.path);
    }
}

proof fn lemma_count_files_bound(fs: Seq<FileDiffEntryView>, st: FileChangeStatus)
    ensures
        count_files(fs, st) <= fs.len(),
    decreases fs.len(),
{
    if fs.len() > 0 {
        lemma_count_files_bound(fs.drop_last(), st);
    }
}

proof fn lemma_count_symbols_bound(ss: Seq<SymbolDiffView>, k: int)
    ensures
        count_symbols(ss, k) <= ss.len(),
    decreases ss.len(),
{
    if ss.len() > 0 {
        lemma_count_symbols_bound(ss.drop_last(), k);
    }
}

/// Whether no two symbols of `syms` share a name.
pub open spec fn names_unique(syms: Seq<Symbol>) -> bool {
    forall|i: int, j: int| 0 <= i < j < syms.len() ==> (#[trigger] syms[i]).name@ != (#[trigger] syms[j]).name@
}

proof fn lemma_unique_last_named(syms: Seq<Symbol>, k: int)
    requires
        names_unique(syms),
        0 <= k < syms.len(),
    ensures
        last_named_index(syms, syms[k].name@) == k,
    decreases syms.len(),
{
    if k < syms.len() - 1 {
        assert(syms.last() == syms[syms.len() - 1]);
        assert(syms[k].name@ != syms[syms.len() - 1].name@);
        let init = syms.drop_last();
        assert forall|i: int, j: int| 0 <= i < j < init.len() implies (#[trigger] init[i]).name@ != (#[trigger] init[j]).name@ by {
            assert(init[i] == syms[i]);
            assert(init[j] == syms[j]);
        }
        assert(init[k] == syms[k]);
        lemma_unique_last_named(init, k);
    }
}

proof fn lemma_same_lists_nothing_added(syms: Seq<Symbol>, head: Seq<Symbol>, file: Seq<char>)
    requires
        forall|k: int| 0 <= k < head.len() ==> names_contain(syms, (#[trigger] head[k]).name@),
    ensures
        added_entries(syms, head, file).len() == 0,
    decreases head.len(),
{
    if head.len() > 0 {
        assert forall|k: int| 0 <= k < head.drop_last().len() implies names_contain(syms, (#[trigger] head.drop_last()[k]).name@) by {
            assert(head.drop_last()[k] == head[k]);
        }
        lemma_same_lists_nothing_added(syms, head.drop_last(), file);
        assert(head.last() == head[head.len() - 1]);
    }
}

proof fn lemma_same_lists_nothing_deleted(base: Seq<Symbol>, syms: Seq<Symbol>, file: Seq<char>)
    requires
        forall|k: int| 0 <= k < base.len() ==> names_contain(syms, (#[trigger] base[k]).name@),
    ensures
        deleted_entries(base, syms, file).len() == 0,
    decreases base.len(),
{
    if base.len() > 0 {
        assert forall|k: int| 0 <= k < base.drop_last().len() implies names_contain(syms, (#[trigger] base.drop_last()[k]).name@) by {
            assert(base.drop_last()[k] == base[k]);
        }
        lemma_same_lists_nothing_deleted(base.drop_last(), syms, file);
        assert(base.last() == base[base.len() - 1]);
    }
}

proof fn lemma_same_lists_nothing_modified(syms: Seq<Symbol>, n: int, file: Seq<char>)
    requires
        names_unique(syms),
        0 <= n <= syms.len(),
    ensures
        modified_entries(syms, syms.take(n), file).len() == 0,
    decreases n,
{
    if n > 0 {
        assert(syms.take(n).drop_last() =~= syms.take(n - 1));
        lemma_same_lists_nothing_modified(syms, n - 1, file);
        assert(syms.take(n).last() == syms[n - 1]);
        lemma_unique_last_named(syms, n - 1);
    }
}

/// The symbol diff of a file whose symbols did not change (the same list,
/// names unique, on both sides) is empty.
pub proof fn law_identical_symbols_no_changes(syms: Seq<Symbol>, file: Seq<char>)
    requires
        names_unique(syms),
    ensures
        symbol_changes(syms, syms, file).len() == 0,
{
    assert forall|k: int| 0 <= k < syms.len() implies names_contain(syms, (#[trigger] syms[k]).name@) by {}
    lemma_same_lists_nothing_added(syms, syms, file);
    lemma_same_lists_nothing_deleted(syms, syms, file);
    lemma_same_lists_nothing_modified(syms, syms.len() as int, file);
    assert(syms.take(syms.len() as int) =~= syms);
}

/// Each `Moved` entry among the first `n` entries after move detection
/// replaces the deletion at some `i < n`.
proof fn lemma_moves_come_from_deletions(s: Seq<SymbolDiffView>, n: int, base: ProjectIndex, head: ProjectIndex, k: int)
    requires
        0 <= n <= s.len(),
        forall|i: int| 0 <= i < s.len() ==> !(#[trigger] s[i].change is Moved),
        0 <= k < moves_applied(s, n, base, head).len(),
        moves_applied(s, n, base, head)[k].change is Moved,
    ensures
        exists|i: int|
            0 <= i < n && matched_deleted(s, i) && #[trigger] moved_view(s, i, base, head) == moves_applied(
                s,
                n,
                base,
                head,
            )[k],
    decreases n,
{
    if n > 0 {
        let prev = moves_applied(s, n - 1, base, head);
        let i = n - 1;
        if matched_added(s, i) {
            lemma_moves_come_from_deletions(s, n - 1, base, head, k);
        } else if k < prev.len() {
            lemma_moves_come_from_deletions(s, n - 1, base, head, k);
        } else if matched_deleted(s, i) {
            assert(moved_view(s, i, base, head) == moves_applied(s, n, base, head)[k]);
        } else {
            assert(moves_applied(s, n, base, head)[k] == s[i]);
        }
    }
}

/// A move found by move detection sits in the new file and names the old
/// one; its signature changed exactly when the base symbol in the old file
/// and the head symbol in the new file have different signature texts, and
/// its body changed when, besides, their body hashes differ. When either
/// side lacks the symbol, neither is reported changed.
pub proof fn law_moves_report_signature_changes(s: Seq<SymbolDiffView>, base: ProjectIndex, head: ProjectIndex, k: int)
    requires
        forall|i: int| 0 <= i < s.len() ==> !(#[trigger] s[i].change is Moved),
        0 <= k < detect_moves_spec(s, base, head).len(),
        detect_moves_spec(s, base, head)[k].change is Moved,
    ensures
        ({
            let e = detect_moves_spec(s, base, head)[k];
            match e.change {
                SymbolChangeView::Moved { old_file, old_name, signature_changed, body_changed } => {
                    &&& old_name is None
                    &&& old_file != e.file
                    &&& exists|i: int|
                        0 <= i < s.len() && (#[trigger] s[i]).change is Deleted && s[i].name == e.name && s[i].file
                            == old_file && s[i].kind == e.kind
                    &&& exists|j: int|
                        0 <= j < s.len() && (#[trigger] s[j]).change is Added && s[j].name == e.name && s[j].file
                            == e.file
                    &&& match (
                        find_symbol(base.symbols@, old_file, e.name),
                        find_symbol(head.symbols@, e.file, e.name),
                    ) {
                        (Some(b), Some(h)) => {
                            &&& signature_changed == (b.signature@ != h.signature@)
                            &&& body_changed == (b.signature@ != h.signature@ || b.body_hash != h.body_hash)
                        },
                        _ => !signature_changed && !body_changed,
                    }
                },
                _ => true,
            }
        }),
{
    lemma_moves_come_from_deletions(s, s.len() as int, base, head, k);
    let out = detect_moves_spec(s, base, head);
    let i = choose|i: int| 0 <= i < s.len() && matched_deleted(s, i) && #[trigger] moved_view(s, i, base, head) == out[k];
    lemma_first_change(s, s[i].name, true);
    lemma_first_change(s, s[i].name, false);
    let j = first_change(s, s[i].name, false);
    assert(s[i].change is Deleted && s[i].name == out[k].name);
    assert(s[j].change is Added && s[j].name == out[k].name && s[j].file == out[k].file);
}

proof fn lemma_moves_keep_other_entries(s: Seq<SymbolDiffView>, n: int, base: ProjectIndex, head: ProjectIndex)
    requires
        0 <= n <= s.len(),
        forall|i: int| 0 <= i < s.len() ==> !(#[trigger] s[i].change is Moved),
    ensures
        forall|k: int|
            0 <= k < moves_applied(s, n, base, head).len() && !(moves_applied(s, n, base, head)[k].change is Moved)
                ==> exists|i: int|
                0 <= i < n && !matched_added(s, i) && !matched_deleted(s, i) && #[trigger] s[i]
                    == moves_applied(s, n, base, head)[k],
        forall|i: int|
            0 <= i < n && !matched_added(s, i) && !matched_deleted(s, i) ==> exists|k: int|
                0 <= k < moves_applied(s, n, base, head).len() && moves_applied(s, n, base, head)[k] == #[trigger] s[i],
    decreases n,
{
    if n > 0 {
        lemma_moves_keep_other_entries(s, n - 1, base, head);
        let prev = moves_applied(s, n - 1, base, head);
        let cur = moves_applied(s, n, base, head);
        let i = n - 1;
        assert forall|k: int| 0 <= k < prev.len() implies cur[k] == prev[k] by {}
        assert forall|k: int| 0 <= k < cur.len() && !(cur[k].change is Moved) implies exists|j: int|
            0 <= j < n && !matched_added(s, j) && !matched_deleted(s, j) && #[trigger] s[j] == cur[k] by {
            if k < prev.len() {
                assert(cur[k] == prev[k]);
            } else {
                assert(s[i] == cur[k]);
            }
        }
        assert forall|j: int| 0 <= j < n && !matched_added(s, j) && !matched_deleted(s, j) implies exists|k: int|
            0 <= k < cur.len() && cur[k] == #[trigger] s[j] by {
            if j < n - 1 {
                let k = choose|k: int| 0 <= k < prev.len() && prev[k] == s[j];
                assert(cur[k] == s[j]);
            } else {
                assert(cur[prev.len() as int] == s[j]);
            }
        }
    }
}

/// Move detection changes nothing but the moves: every entry it gives that
/// is not a move is an entry of its input that takes part in no move, and
/// every input entry that takes part in no move is kept.
pub proof fn law_moves_keep_other_entries(s: Seq<SymbolDiffView>, base: ProjectIndex, head: ProjectIndex)
    requires
        forall|i: int| 0 <= i < s.len() ==> !(#[trigger] s[i].change is Moved),
    ensures
        forall|k: int|
            0 <= k < detect_moves_spec(s, base, head).len() && !(detect_moves_spec(s, base, head)[k].change is Moved)
                ==> exists|i: int|
                0 <= i < s.len() && !matched_added(s, i) && !matched_deleted(s, i) && #[trigger] s[i]
                    == detect_moves_spec(s, base, head)[k],
        forall|i: int|
            0 <= i < s.len() && !matched_added(s, i) && !matched_deleted(s, i) ==> exists|k: int|
                0 <= k < detect_moves_spec(s, base, head).len() && detect_moves_spec(s, base, head)[k] == #[trigger] s[i],
{
    lemma_moves_keep_other_entries(s, s.len() as int, base, head);
}

} // verus!
