use coderlm_server::git::{FileDiff, FileStatus};
use coderlm_server::model::{FileEntry, Language, ProjectIndex, Symbol, SymbolKind};
use coderlm_server::review::diff::{
    compute_incremental_diff, compute_review_diff, detect_moves, diff_file_symbols, process_file_diff,
};
use coderlm_server::review::{FileChangeStatus, SymbolChange, SymbolDiffEntry};

fn sym(name: &str, kind: SymbolKind, file: &str, lines: (usize, usize), sig: &str, body: &str, hash: u64) -> Symbol {
    Symbol {
        name: name.to_string(),
        kind,
        file: file.to_string(),
        line_range: lines,
        byte_range: (0, body.len()),
        signature: sig.to_string(),
        body: body.to_string(),
        body_hash: hash,
    }
}

fn func(name: &str, file: &str, sig: &str, hash: u64) -> Symbol {
    sym(name, SymbolKind::Function, file, (1, 3), sig, "", hash)
}

fn file(path: &str, language: Language) -> FileEntry {
    FileEntry { path: path.to_string(), language, symbols_extracted: true }
}

fn fd(path: &str, status: FileStatus) -> FileDiff {
    FileDiff { path: path.to_string(), status }
}

fn entry(name: &str, file: &str, change: SymbolChange) -> SymbolDiffEntry {
    SymbolDiffEntry { name: name.to_string(), file: file.to_string(), kind: SymbolKind::Function, change }
}

fn is_added(e: &SymbolDiffEntry, name: &str, file: &str) -> bool {
    e.name == name && e.file == file && matches!(e.change, SymbolChange::Added)
}

fn is_deleted(e: &SymbolDiffEntry, name: &str, file: &str) -> bool {
    e.name == name && e.file == file && matches!(e.change, SymbolChange::Deleted)
}

#[test]
fn symbols_diff_orders_added_deleted_modified() {
    let base = vec![
        func("foo", "m.rs", "fn foo()", 1),
        func("bar", "m.rs", "fn bar()", 2),
        func("baz", "m.rs", "fn baz()", 3),
        func("same", "m.rs", "fn same()", 4),
    ];
    let head = vec![
        func("foo", "m.rs", "fn foo(x: u8)", 1),
        func("bar", "m.rs", "fn bar()", 9),
        func("qux", "m.rs", "fn qux()", 5),
        func("same", "m.rs", "fn same()", 4),
    ];
    let d = diff_file_symbols(&base, &head, "m.rs");
    assert_eq!(d.len(), 4);
    assert!(is_added(&d[0], "qux", "m.rs"));
    assert!(is_deleted(&d[1], "baz", "m.rs"));
    assert_eq!(d[2].name, "foo");
    match &d[2].change {
        SymbolChange::Modified { signature_changed, old_signature, new_signature, body_changed } => {
            assert!(*signature_changed);
            assert_eq!(old_signature, "fn foo()");
            assert_eq!(new_signature, "fn foo(x: u8)");
            assert!(*body_changed);
        },
        other => panic!("unexpected change {:?}", other),
    }
    assert_eq!(d[3].name, "bar");
    match &d[3].change {
        SymbolChange::Modified { signature_changed, body_changed, .. } => {
            assert!(!*signature_changed);
            assert!(*body_changed);
        },
        other => panic!("unexpected change {:?}", other),
    }
}

#[test]
fn symbols_diff_of_identical_files_is_empty() {
    let base = vec![func("a", "x.rs", "fn a()", 7)];
    let head = vec![func("a", "x.rs", "fn a()", 7)];
    assert!(diff_file_symbols(&base, &head, "x.rs").is_empty());
}

#[test]
fn processing_a_rename_reads_the_old_path_in_base() {
    let base = ProjectIndex {
        files: vec![file("old.rs", Language::Rust)],
        symbols: vec![func("keep", "old.rs", "fn keep()", 1), func("gone", "old.rs", "fn gone()", 2)],
    };
    let head = ProjectIndex {
        files: vec![file("new.rs", Language::Rust)],
        symbols: vec![func("keep", "new.rs", "fn keep()", 1)],
    };
    let g = fd("new.rs", FileStatus::Renamed { from: "old.rs".to_string() });
    let (e, syms) = process_file_diff(&g, &base, &head);
    assert_eq!(e.path, "new.rs");
    assert_eq!(e.status, FileChangeStatus::Renamed);
    assert_eq!(e.old_path.as_deref(), Some("old.rs"));
    assert_eq!(e.language, Language::Rust);
    assert_eq!(syms.len(), 1);
    assert!(is_deleted(&syms[0], "gone", "new.rs"));
}

#[test]
fn processing_added_and_deleted_files() {
    let base = ProjectIndex { files: vec![file("d.py", Language::Python)], symbols: vec![func("old", "d.py", "def old()", 1)] };
    let head = ProjectIndex { files: vec![file("a.go", Language::Go)], symbols: vec![func("new", "a.go", "func new()", 1)] };
    let (ea, sa) = process_file_diff(&fd("a.go", FileStatus::Added), &base, &head);
    assert_eq!(ea.status, FileChangeStatus::Added);
    assert_eq!(ea.language, Language::Go);
    assert!(ea.old_path.is_none());
    assert_eq!(sa.len(), 1);
    assert!(is_added(&sa[0], "new", "a.go"));
    let (ed, sd) = process_file_diff(&fd("d.py", FileStatus::Deleted), &base, &head);
    assert_eq!(ed.status, FileChangeStatus::Deleted);
    assert_eq!(ed.language, Language::Python);
    assert_eq!(sd.len(), 1);
    assert!(is_deleted(&sd[0], "old", "d.py"));
    // A file the head tree does not know has language Other.
    let (eu, _) = process_file_diff(&fd("unknown.txt", FileStatus::Modified), &base, &head);
    assert_eq!(eu.language, Language::Other);
}

#[test]
fn moves_replace_deleted_and_added_pairs() {
    let base = ProjectIndex { files: vec![], symbols: vec![func("helper", "a.rs", "fn helper()", 5)] };
    let head = ProjectIndex { files: vec![], symbols: vec![func("helper", "b.rs", "fn helper()", 6)] };
    let mut diffs = vec![
        entry("helper", "a.rs", SymbolChange::Deleted),
        entry("helper", "b.rs", SymbolChange::Added),
        entry("other", "b.rs", SymbolChange::Added),
    ];
    detect_moves(&mut diffs, &base, &head);
    assert_eq!(diffs.len(), 2);
    assert_eq!(diffs[0].name, "helper");
    assert_eq!(diffs[0].file, "b.rs");
    match &diffs[0].change {
        SymbolChange::Moved { old_file, old_name, signature_changed, body_changed } => {
            assert_eq!(old_file, "a.rs");
            assert!(old_name.is_none());
            assert!(!*signature_changed);
            assert!(*body_changed);
        },
        other => panic!("unexpected change {:?}", other),
    }
    assert!(is_added(&diffs[1], "other", "b.rs"));
}

#[test]
fn same_file_pairs_are_not_moves() {
    let p = ProjectIndex { files: vec![], symbols: vec![] };
    let mut diffs = vec![entry("f", "a.rs", SymbolChange::Deleted), entry("f", "a.rs", SymbolChange::Added)];
    detect_moves(&mut diffs, &p, &p);
    assert_eq!(diffs.len(), 2);
    assert!(is_deleted(&diffs[0], "f", "a.rs"));
    assert!(is_added(&diffs[1], "f", "a.rs"));
}

fn sample_projects() -> (ProjectIndex, ProjectIndex) {
    let base = ProjectIndex {
        files: vec![file("lib.rs", Language::Rust), file("util.rs", Language::Rust), file("old.rs", Language::Rust)],
        symbols: vec![
            func("run", "lib.rs", "fn run()", 1),
            func("helper", "util.rs", "fn helper()", 2),
            func("legacy", "old.rs", "fn legacy()", 3),
        ],
    };
    let head = ProjectIndex {
        files: vec![file("lib.rs", Language::Rust), file("util.rs", Language::Rust), file("new.rs", Language::Rust)],
        symbols: vec![
            func("run", "lib.rs", "fn run(fast: bool)", 1),
            func("helper", "util.rs", "fn helper()", 2),
            func("fresh", "new.rs", "fn fresh()", 4),
        ],
    };
    (base, head)
}

#[test]
fn review_diff_counts_files_and_symbols() {
    let (base, head) = sample_projects();
    let gits = vec![
        fd("lib.rs", FileStatus::Modified),
        fd("old.rs", FileStatus::Deleted),
        fd("new.rs", FileStatus::Added),
    ];
    let d = compute_review_diff(&base, &head, &gits);
    assert_eq!(d.file_diffs.len(), 3);
    assert_eq!(d.stats.files_modified, 1);
    assert_eq!(d.stats.files_deleted, 1);
    assert_eq!(d.stats.files_added, 1);
    assert_eq!(d.stats.files_renamed, 0);
    assert_eq!(d.stats.symbols_modified, 1);
    assert_eq!(d.stats.symbols_deleted, 1);
    assert_eq!(d.stats.symbols_added, 1);
    assert_eq!(d.stats.symbols_moved, 0);
    assert_eq!(d.symbol_diffs.len(), 3);
    assert_eq!(d.symbol_diffs[0].name, "run");
    assert!(is_deleted(&d.symbol_diffs[1], "legacy", "old.rs"));
    assert!(is_added(&d.symbol_diffs[2], "fresh", "new.rs"));
    // The counts add up to the entries.
    let s = d.stats;
    assert_eq!(s.files_added + s.files_deleted + s.files_modified + s.files_renamed, d.file_diffs.len());
    assert_eq!(s.symbols_added + s.symbols_deleted + s.symbols_modified + s.symbols_moved, d.symbol_diffs.len());
}

#[test]
fn incremental_diff_with_every_path_changed_equals_full_diff() {
    let (base, head) = sample_projects();
    let gits = vec![fd("lib.rs", FileStatus::Modified), fd("new.rs", FileStatus::Added)];
    let stale = compute_review_diff(&base, &base, &gits);
    let changed = vec!["lib.rs".to_string(), "new.rs".to_string()];
    let inc = compute_incremental_diff(&stale, &base, &head, &gits, &changed);
    let full = compute_review_diff(&base, &head, &gits);
    assert_eq!(inc.file_diffs.len(), full.file_diffs.len());
    assert_eq!(inc.symbol_diffs.len(), full.symbol_diffs.len());
    for (a, b) in inc.symbol_diffs.iter().zip(full.symbol_diffs.iter()) {
        assert_eq!(a.name, b.name);
        assert_eq!(a.file, b.file);
    }
    assert_eq!(inc.stats, full.stats);
}

#[test]
fn incremental_diff_reuses_unchanged_files() {
    let (base, head) = sample_projects();
    let gits = vec![fd("lib.rs", FileStatus::Modified), fd("new.rs", FileStatus::Added)];
    let old = compute_review_diff(&base, &head, &gits);
    // Nothing changed and every path is known: the old entries come back.
    let inc = compute_incremental_diff(&old, &base, &base, &gits, &[]);
    assert_eq!(inc.file_diffs.len(), 2);
    assert_eq!(inc.symbol_diffs.len(), old.symbol_diffs.len());
    assert_eq!(inc.symbol_diffs[0].name, "run");
    assert!(is_added(&inc.symbol_diffs[1], "fresh", "new.rs"));
    // A path the old diff did not hold is processed anew.
    let more = vec![fd("lib.rs", FileStatus::Modified), fd("new.rs", FileStatus::Added), fd("old.rs", FileStatus::Deleted)];
    let inc2 = compute_incremental_diff(&old, &base, &head, &more, &[]);
    assert_eq!(inc2.file_diffs.len(), 3);
    assert_eq!(inc2.stats.symbols_deleted, 1);
}
