use coderlm_server::model::{CallSite, Language, ProjectIndex, Symbol, SymbolKind};
use coderlm_server::review::classification::{compute_change_classification, error_pattern_count};
use coderlm_server::review::complexity::{
    compute_complexity, compute_max_nesting, count_parameters, measure_symbol, ComplexityMetrics,
};
use coderlm_server::review::diff::ReviewDiff;
use coderlm_server::review::imports::{
    compute_diff_for_entry, compute_import_diff_all, compute_import_diff_for_file, imports_from_project,
};
use coderlm_server::review::references::{compute_reference_check, reference_queries, Snapshot};
use coderlm_server::review::{
    DiffStats, FileChangeStatus, FileDiffEntry, ReviewQueryError, SymbolChange, SymbolDiffEntry,
};

fn sym(name: &str, kind: SymbolKind, file: &str, line: usize, sig: &str, body: &str) -> Symbol {
    Symbol {
        name: name.to_string(),
        kind,
        file: file.to_string(),
        line_range: (line, line + 1),
        byte_range: (0, body.len()),
        signature: sig.to_string(),
        body: body.to_string(),
        body_hash: 0,
    }
}

fn entry(name: &str, file: &str, kind: SymbolKind, change: SymbolChange) -> SymbolDiffEntry {
    SymbolDiffEntry { name: name.to_string(), file: file.to_string(), kind, change }
}

fn modified(sig: bool, body: bool) -> SymbolChange {
    SymbolChange::Modified {
        signature_changed: sig,
        old_signature: String::new(),
        new_signature: String::new(),
        body_changed: body,
    }
}

fn file_entry(path: &str, status: FileChangeStatus, old_path: Option<&str>) -> FileDiffEntry {
    FileDiffEntry { path: path.to_string(), status, old_path: old_path.map(|s| s.to_string()), language: Language::Rust }
}

fn diff(files: Vec<FileDiffEntry>, symbols: Vec<SymbolDiffEntry>) -> ReviewDiff {
    ReviewDiff { file_diffs: files, symbol_diffs: symbols, stats: DiffStats::default() }
}

// ---------------------------------------------------------------------------
// Classification
// ---------------------------------------------------------------------------

#[test]
fn error_patterns_are_counted() {
    assert_eq!(error_pattern_count("fn f() -> Result<u8, Error> { x? }"), 3);
    assert_eq!(error_pattern_count("x.unwrap_or(1)"), 1);
    assert_eq!(error_pattern_count("a.unwrap(); b.unwrap();"), 2);
    assert_eq!(error_pattern_count("if err != nil { return err }"), 1);
    assert_eq!(error_pattern_count("plain code"), 0);
    assert_eq!(error_pattern_count(""), 0);
}

#[test]
fn classification_by_kind_and_change() {
    let base = ProjectIndex {
        files: vec![],
        symbols: vec![
            sym("risky", SymbolKind::Function, "a.rs", 1, "fn risky()", "fn risky() { go() }"),
            sym("plain", SymbolKind::Function, "a.rs", 5, "fn plain()", "fn plain() { x.unwrap() }"),
        ],
    };
    let head = ProjectIndex {
        files: vec![],
        symbols: vec![
            sym("risky", SymbolKind::Function, "a.rs", 1, "fn risky()", "fn risky() -> Result<(), E> { go()? }"),
            sym("plain", SymbolKind::Function, "a.rs", 5, "fn plain()", "fn plain() { y }"),
            sym("fresh", SymbolKind::Function, "a.rs", 9, "fn fresh()", "fn fresh() { panic!(\"no\") }"),
        ],
    };
    let d = diff(
        vec![],
        vec![
            entry("use std::io;", "a.rs", SymbolKind::Import, SymbolChange::Added),
            entry("fresh", "a.rs", SymbolKind::Function, SymbolChange::Added),
            entry("Shape", "a.rs", SymbolKind::Struct, modified(true, true)),
            entry("api", "a.rs", SymbolKind::Function, modified(true, true)),
            entry("risky", "a.rs", SymbolKind::Function, modified(false, true)),
            entry("plain", "a.rs", SymbolKind::Function, modified(false, true)),
            entry("Kind", "a.rs", SymbolKind::Enum, modified(false, true)),
            entry("quiet", "a.rs", SymbolKind::Function, modified(false, false)),
            entry("gone", "a.rs", SymbolKind::Function, SymbolChange::Deleted),
        ],
    );
    let c = compute_change_classification(&d, &base, &head);
    let got: Vec<(String, String)> = c.iter().map(|x| (x.classification.clone(), x.sub_classification.clone())).collect();
    let want: Vec<(&str, &str)> = vec![
        ("import_change", ""),
        ("structural", "added"),
        ("type_change", "signature_changed"),
        ("api_surface_change", "signature_changed"),
        ("error_handling_change", "error_handling_change"),
        ("behavioral", "body_logic_change"),
        ("type_change", "body_change"),
        ("behavioral", ""),
        ("structural", "deleted"),
    ];
    assert_eq!(got.len(), want.len());
    for (g, w) in got.iter().zip(want.iter()) {
        assert_eq!((g.0.as_str(), g.1.as_str()), *w);
    }
    assert_eq!(c[1].symbol, "fresh");
    assert_eq!(c[1].file, "a.rs");
    assert_eq!(c[1].kind, SymbolKind::Function);
}

#[test]
fn new_symbol_with_error_handling_is_classified_by_head_alone() {
    let base = ProjectIndex { files: vec![], symbols: vec![] };
    let head = ProjectIndex {
        files: vec![],
        symbols: vec![sym("f", SymbolKind::Function, "a.rs", 1, "fn f()", "fn f() { bail!(\"x\") }")],
    };
    let d = diff(vec![], vec![entry("f", "a.rs", SymbolKind::Function, modified(false, true))]);
    let c = compute_change_classification(&d, &base, &head);
    assert_eq!(c[0].classification, "error_handling_change");
}

// ---------------------------------------------------------------------------
// Complexity
// ---------------------------------------------------------------------------

#[test]
fn nesting_counts_every_brace() {
    assert_eq!(compute_max_nesting("fn a() {\n if x {\n  { y }\n }\n}"), 2);
    assert_eq!(compute_max_nesting("fn f() { let s = \"{\"; }"), 1);
    assert_eq!(compute_max_nesting("fn a() { let s = \"{{{\"; }"), 3);
    assert_eq!(compute_max_nesting("fn a() { // {{{{\n}"), 4);
    assert_eq!(compute_max_nesting("no braces"), 0);
    assert_eq!(compute_max_nesting("}}} { {"), 1);
}

#[test]
fn parameters_are_top_level_commas() {
    assert_eq!(count_parameters("fn f(a: u8, b: Vec<(u8, u8)>)"), 2);
    assert_eq!(count_parameters("fn g()"), 0);
    assert_eq!(count_parameters("fn h(self)"), 1);
    assert_eq!(count_parameters("no parens"), 0);
    assert_eq!(count_parameters("def k(a, b, c):"), 3);
}

#[test]
fn measures_and_deltas() {
    let base_run = sym("run", SymbolKind::Function, "a.rs", 1, "fn run()", "fn run() {\n}\n");
    let head_run = sym("run", SymbolKind::Function, "a.rs", 1, "fn run(a: u8, b: u8)", "fn run(a: u8, b: u8) {\n if a {\n }\n}\n");
    assert_eq!(measure_symbol(&base_run), ComplexityMetrics { lines: 2, max_nesting: 0, parameters: 0 });
    assert_eq!(measure_symbol(&head_run), ComplexityMetrics { lines: 4, max_nesting: 1, parameters: 2 });
    let base = ProjectIndex { files: vec![], symbols: vec![base_run, sym("v", SymbolKind::Variable, "a.rs", 9, "", "")] };
    let head = ProjectIndex { files: vec![], symbols: vec![head_run, sym("v", SymbolKind::Variable, "a.rs", 9, "", "x")] };
    let d = diff(
        vec![],
        vec![
            entry("run", "a.rs", SymbolKind::Function, modified(true, true)),
            entry("v", "a.rs", SymbolKind::Variable, modified(false, true)),
            entry("missing", "a.rs", SymbolKind::Function, modified(false, true)),
            entry("added", "a.rs", SymbolKind::Function, SymbolChange::Added),
        ],
    );
    let deltas = compute_complexity(&d, &base, &head, None);
    assert_eq!(deltas.len(), 1);
    assert_eq!(deltas[0].symbol, "run");
    assert_eq!(deltas[0].delta, ComplexityMetrics { lines: 2, max_nesting: 1, parameters: 2 });
    assert!(deltas[0].regression);
    assert!(compute_complexity(&d, &base, &head, Some("other.rs")).is_empty());
    // A shrinking symbol is no regression and its deltas saturate at zero.
    let rev = compute_complexity(&d, &head, &base, Some("a.rs"));
    assert_eq!(rev[0].delta, ComplexityMetrics { lines: 0, max_nesting: 0, parameters: 0 });
    assert!(!rev[0].regression);
}

// ---------------------------------------------------------------------------
// Imports
// ---------------------------------------------------------------------------

fn import_projects() -> (ProjectIndex, ProjectIndex) {
    let base = ProjectIndex {
        files: vec![],
        symbols: vec![
            sym("use std::io;", SymbolKind::Import, "a.rs", 1, "", ""),
            sym("use std::fmt;", SymbolKind::Import, "a.rs", 2, "", ""),
            sym("helper", SymbolKind::Function, "a.rs", 4, "", ""),
            sym("import os", SymbolKind::Import, "old.py", 1, "", ""),
        ],
    };
    let head = ProjectIndex {
        files: vec![],
        symbols: vec![
            sym("use std::fmt;", SymbolKind::Import, "a.rs", 1, "", ""),
            sym("use std::fs;", SymbolKind::Import, "a.rs", 2, "", ""),
            sym("import os", SymbolKind::Import, "new.py", 1, "", ""),
            sym("import sys", SymbolKind::Import, "new.py", 2, "", ""),
            sym("import json", SymbolKind::Import, "same.py", 1, "", ""),
        ],
    };
    (base, head)
}

#[test]
fn imports_are_the_import_symbols_of_a_file() {
    let (base, _) = import_projects();
    let names: Vec<String> = imports_from_project(&base, "a.rs").into_iter().map(|s| s.name).collect();
    assert_eq!(names, vec!["use std::io;".to_string(), "use std::fmt;".to_string()]);
}

#[test]
fn import_diff_of_a_modified_file() {
    let (base, head) = import_projects();
    let d = compute_diff_for_entry(&file_entry("a.rs", FileChangeStatus::Modified, None), &base, &head);
    assert_eq!(d.file, "a.rs");
    assert_eq!(d.language, Language::Rust);
    assert_eq!(d.added_imports.len(), 1);
    assert_eq!(d.added_imports[0].text, "use std::fs;");
    assert_eq!(d.added_imports[0].line, 2);
    assert_eq!(d.removed_imports.len(), 1);
    assert_eq!(d.removed_imports[0].text, "use std::io;");
    assert_eq!(d.removed_imports[0].line, 1);
}

#[test]
fn import_diff_of_renamed_added_and_deleted_files() {
    let (base, head) = import_projects();
    let r = compute_diff_for_entry(&file_entry("new.py", FileChangeStatus::Renamed, Some("old.py")), &base, &head);
    assert_eq!(r.added_imports.len(), 1);
    assert_eq!(r.added_imports[0].text, "import sys");
    assert!(r.removed_imports.is_empty());
    let a = compute_diff_for_entry(&file_entry("a.rs", FileChangeStatus::Added, None), &base, &head);
    assert_eq!(a.added_imports.len(), 2);
    assert!(a.removed_imports.is_empty());
    let del = compute_diff_for_entry(&file_entry("a.rs", FileChangeStatus::Deleted, None), &base, &head);
    assert!(del.added_imports.is_empty());
    assert_eq!(del.removed_imports.len(), 2);
}

#[test]
fn import_diffs_across_files_skip_unchanged() {
    let (base, head) = import_projects();
    let d = diff(
        vec![
            file_entry("a.rs", FileChangeStatus::Modified, None),
            file_entry("same.py", FileChangeStatus::Added, None),
            file_entry("none.rs", FileChangeStatus::Modified, None),
        ],
        vec![],
    );
    let all = compute_import_diff_all(&d, &base, &head);
    assert_eq!(all.len(), 2);
    assert_eq!(all[0].file, "a.rs");
    assert_eq!(all[1].file, "same.py");
    assert!(compute_import_diff_for_file(&d, &base, &head, "none.rs").is_some());
    assert!(compute_import_diff_for_file(&d, &base, &head, "missing.rs").is_none());
}

// ---------------------------------------------------------------------------
// Stale references
// ---------------------------------------------------------------------------

fn reference_diff() -> ReviewDiff {
    diff(
        vec![file_entry("a.rs", FileChangeStatus::Modified, None), file_entry("b.rs", FileChangeStatus::Renamed, Some("old_b.rs"))],
        vec![
            entry("foo", "a.rs", SymbolKind::Function, modified(true, true)),
            entry("bar", "a.rs", SymbolKind::Function, SymbolChange::Deleted),
            entry(
                "baz",
                "b.rs",
                SymbolKind::Function,
                SymbolChange::Moved { old_file: "c.rs".to_string(), old_name: Some("qux".to_string()), signature_changed: false, body_changed: true },
            ),
            entry("new", "a.rs", SymbolKind::Function, SymbolChange::Added),
        ],
    )
}

fn site(file: &str, line: usize) -> CallSite {
    CallSite { file: file.to_string(), line, text: format!("call at {}", line) }
}

#[test]
fn reference_queries_pick_snapshot_and_old_names() {
    let d = reference_diff();
    let (main, extra) = reference_queries(&d, "foo", "a.rs").unwrap();
    assert_eq!(main.snapshot, Snapshot::Head);
    assert_eq!((main.symbol.as_str(), main.file.as_str()), ("foo", "a.rs"));
    assert!(extra.is_none());
    let (main, _) = reference_queries(&d, "bar", "a.rs").unwrap();
    assert_eq!(main.snapshot, Snapshot::Base);
    let (_, extra) = reference_queries(&d, "baz", "b.rs").unwrap();
    let extra = extra.unwrap();
    assert_eq!(extra.snapshot, Snapshot::Head);
    assert_eq!((extra.symbol.as_str(), extra.file.as_str()), ("qux", "c.rs"));
    assert!(matches!(reference_queries(&d, "foo", "b.rs"), Err(ReviewQueryError::SymbolNotInDiff { .. })));
}

#[test]
fn reference_check_splits_updated_and_stale() {
    let d = reference_diff();
    let r = compute_reference_check(&d, "foo", "a.rs", &[site("a.rs", 1), site("old_b.rs", 2), site("z.rs", 3)], &[]).unwrap();
    assert_eq!(r.change, "modified");
    assert_eq!(r.signature_changed, Some(true));
    assert_eq!(r.total_references, 3);
    assert_eq!(r.updated_in_pr, 2);
    assert_eq!(r.not_updated.len(), 1);
    assert_eq!(r.not_updated[0].file, "z.rs");
    assert_eq!(r.not_updated[0].line, 3);
    assert_eq!(r.risk, "high");
    assert_eq!(r.total_references, r.updated_in_pr + r.not_updated.len());
}

#[test]
fn reference_check_risk_levels() {
    let d = reference_diff();
    let none = compute_reference_check(&d, "foo", "a.rs", &[site("a.rs", 1)], &[]).unwrap();
    assert_eq!(none.risk, "none");
    let deleted = compute_reference_check(&d, "bar", "a.rs", &[site("z.rs", 1)], &[]).unwrap();
    assert_eq!(deleted.change, "deleted");
    assert!(deleted.signature_changed.is_none());
    assert_eq!(deleted.risk, "high");
    let moved = compute_reference_check(&d, "baz", "b.rs", &[], &[site("y.rs", 4), site("b.rs", 5)]).unwrap();
    assert_eq!(moved.change, "moved");
    assert_eq!(moved.signature_changed, Some(false));
    assert_eq!(moved.total_references, 2);
    assert_eq!(moved.updated_in_pr, 1);
    assert_eq!(moved.risk, "medium");
    let added = compute_reference_check(&d, "new", "a.rs", &[site("q.rs", 1)], &[]).unwrap();
    assert_eq!(added.change, "added");
    assert_eq!(added.risk, "medium");
    match compute_reference_check(&d, "foo", "z.rs", &[], &[]) {
        Err(ReviewQueryError::SymbolNotInDiff { symbol, file }) => {
            assert_eq!(symbol, "foo");
            assert_eq!(file, "z.rs");
        },
        other => panic!("unexpected {:?}", other.map(|r| r.symbol)),
    }
}
