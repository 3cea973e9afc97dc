use coderlm_server::model::{CallSite, FileEntry, Language, ProjectIndex, Symbol, SymbolKind, TestSite};
use coderlm_server::review::diff::ReviewDiff;
use coderlm_server::review::impact::{
    compute_body_safety, compute_impact, compute_safety, compute_test_coverage, enclosing_function,
    collect_callers_bfs, find_symbol_entry, is_body_only_change, is_risky_change, modified_files, CallerQuery,
    CallerSearch,
};
use coderlm_server::review::{
    CallerWithRisk, DiffStats, FileChangeStatus, FileDiffEntry, RiskLevel, SymbolChange, SymbolDiffEntry,
};

fn sym(name: &str, kind: SymbolKind, file: &str, lines: (usize, usize)) -> Symbol {
    Symbol {
        name: name.to_string(),
        kind,
        file: file.to_string(),
        line_range: lines,
        byte_range: (0, 0),
        signature: String::new(),
        body: String::new(),
        body_hash: 0,
    }
}

fn entry(name: &str, file: &str, kind: SymbolKind, change: SymbolChange) -> SymbolDiffEntry {
    SymbolDiffEntry { name: name.to_string(), file: file.to_string(), kind, change }
}

fn modified(sig: bool, body: bool) -> SymbolChange {
    SymbolChange::Modified {
        signature_changed: sig,
        old_signature: "fn a()".to_string(),
        new_signature: "fn a()".to_string(),
        body_changed: body,
    }
}

fn moved(sig: bool, body: bool) -> SymbolChange {
    SymbolChange::Moved { old_file: "old.rs".to_string(), old_name: None, signature_changed: sig, body_changed: body }
}

fn caller(file: &str, line: usize, also: bool) -> CallerWithRisk {
    CallerWithRisk { file: file.to_string(), line, text: "call()".to_string(), also_modified_in_pr: also, depth: 1, via: None }
}

fn test_site(name: &str, file: &str) -> TestSite {
    TestSite { name: name.to_string(), file: file.to_string(), line: 1 }
}

fn diff_with(symbols: Vec<SymbolDiffEntry>) -> ReviewDiff {
    ReviewDiff {
        file_diffs: vec![
            FileDiffEntry { path: "a.rs".to_string(), status: FileChangeStatus::Modified, old_path: None, language: Language::Rust },
            FileDiffEntry { path: "b.rs".to_string(), status: FileChangeStatus::Added, old_path: None, language: Language::Rust },
        ],
        symbol_diffs: symbols,
        stats: DiffStats::default(),
    }
}

#[test]
fn modified_files_lists_changed_paths() {
    let d = diff_with(vec![]);
    assert_eq!(modified_files(&d), vec!["a.rs".to_string(), "b.rs".to_string()]);
}

#[test]
fn enclosing_function_is_innermost() {
    let p = ProjectIndex {
        files: vec![FileEntry { path: "x.rs".to_string(), language: Language::Rust, symbols_extracted: true }],
        symbols: vec![
            sym("outer", SymbolKind::Function, "x.rs", (1, 10)),
            sym("inner", SymbolKind::Method, "x.rs", (3, 5)),
            sym("Holder", SymbolKind::Struct, "x.rs", (4, 4)),
            sym("elsewhere", SymbolKind::Function, "y.rs", (1, 100)),
        ],
    };
    assert_eq!(enclosing_function(&p, "x.rs", 4).map(|s| s.name), Some("inner".to_string()));
    assert_eq!(enclosing_function(&p, "x.rs", 8).map(|s| s.name), Some("outer".to_string()));
    assert!(enclosing_function(&p, "x.rs", 20).is_none());
    assert!(enclosing_function(&p, "z.rs", 1).is_none());
}

#[test]
fn caller_search_walks_hops_breadth_first() {
    let p = ProjectIndex {
        files: vec![],
        symbols: vec![sym("outer", SymbolKind::Function, "x.rs", (1, 10)), sym("inner", SymbolKind::Function, "x.rs", (3, 5))],
    };
    let modified = vec!["x.rs".to_string()];
    let mut s = CallerSearch::new("target", "t.rs", 2);
    assert_eq!(s.max_depth, 2);
    let q1 = s.next_query().unwrap();
    assert_eq!((q1.file.as_str(), q1.symbol.as_str(), q1.depth), ("t.rs", "target", 1));
    assert!(q1.via.is_none());
    s.record_callers(&q1, &[CallSite { file: "x.rs".to_string(), line: 4, text: "target()".to_string() }], &p, &modified);
    assert_eq!(s.callers.len(), 1);
    assert!(s.callers[0].also_modified_in_pr);
    assert_eq!(s.callers[0].depth, 1);
    let q2 = s.next_query().unwrap();
    assert_eq!((q2.file.as_str(), q2.symbol.as_str(), q2.depth), ("x.rs", "inner", 2));
    assert_eq!(q2.via.as_deref(), Some("inner"));
    s.record_callers(&q2, &[CallSite { file: "y.rs".to_string(), line: 7, text: "inner()".to_string() }], &p, &modified);
    assert_eq!(s.callers.len(), 2);
    assert!(!s.callers[1].also_modified_in_pr);
    assert_eq!(s.callers[1].depth, 2);
    assert_eq!(s.callers[1].via.as_deref(), Some("inner"));
    // The depth limit stops the search: nothing further is scheduled.
    assert!(s.next_query().is_none());
}

#[test]
fn caller_search_depth_is_clamped_and_visits_once() {
    assert_eq!(CallerSearch::new("a", "a.rs", 0).max_depth, 1);
    assert_eq!(CallerSearch::new("a", "a.rs", 9).max_depth, 3);
    let p = ProjectIndex { files: vec![], symbols: vec![sym("f", SymbolKind::Function, "x.rs", (1, 5))] };
    let mut s = CallerSearch::new("a", "a.rs", 3);
    let q = s.next_query().unwrap();
    let sites = vec![
        CallSite { file: "x.rs".to_string(), line: 2, text: "a()".to_string() },
        CallSite { file: "x.rs".to_string(), line: 3, text: "a()".to_string() },
    ];
    s.record_callers(&q, &sites, &p, &vec![]);
    assert_eq!(s.callers.len(), 2);
    // `f` encloses both call sites but is scheduled once.
    assert_eq!(s.queue.len(), 2);
}

#[test]
fn collect_callers_bfs_walks_hops_in_order() {
    let p = ProjectIndex {
        files: vec![],
        symbols: vec![
            sym("outer", SymbolKind::Function, "x.rs", (1, 10)),
            sym("inner", SymbolKind::Function, "x.rs", (3, 5)),
            sym("top", SymbolKind::Function, "y.rs", (1, 9)),
        ],
    };
    let modified = vec!["y.rs".to_string()];
    let find = |q: &CallerQuery| -> Vec<CallSite> {
        match q.symbol.as_str() {
            "target" => vec![
                CallSite { file: "x.rs".to_string(), line: 4, text: "target()".to_string() },
                CallSite { file: "y.rs".to_string(), line: 2, text: "target()".to_string() },
            ],
            "inner" => vec![CallSite { file: "y.rs".to_string(), line: 5, text: "inner()".to_string() }],
            "top" => vec![CallSite { file: "z.rs".to_string(), line: 1, text: "top()".to_string() }],
            _ => vec![],
        }
    };
    let r = collect_callers_bfs(&p, "target", "t.rs", 2, &modified, find);
    let got: Vec<(&str, usize, usize, Option<&str>, bool)> = r
        .iter()
        .map(|c| (c.file.as_str(), c.line, c.depth, c.via.as_deref(), c.also_modified_in_pr))
        .collect();
    assert_eq!(
        got,
        vec![
            ("x.rs", 4, 1, None, false),
            ("y.rs", 2, 1, None, true),
            ("y.rs", 5, 2, Some("inner"), true),
            ("z.rs", 1, 2, Some("top"), false),
        ]
    );
    // Depth 1 stops after the direct callers.
    assert_eq!(collect_callers_bfs(&p, "target", "t.rs", 0, &modified, find).len(), 2);
}

#[test]
fn risky_and_body_only_changes() {
    assert!(is_risky_change(&SymbolChange::Deleted));
    assert!(is_risky_change(&modified(true, false)));
    assert!(is_risky_change(&moved(true, true)));
    assert!(!is_risky_change(&modified(false, true)));
    assert!(!is_risky_change(&SymbolChange::Added));
    assert!(is_body_only_change(&modified(false, true)));
    assert!(is_body_only_change(&moved(false, true)));
    assert!(!is_body_only_change(&modified(true, true)));
    assert!(!is_body_only_change(&SymbolChange::Deleted));
}

fn safety_fixture() -> (ReviewDiff, Vec<Vec<CallerWithRisk>>) {
    let d = diff_with(vec![
        entry("foo", "a.rs", SymbolKind::Function, modified(true, true)),
        entry("bar", "a.rs", SymbolKind::Function, modified(false, true)),
        entry("gone", "a.rs", SymbolKind::Function, SymbolChange::Deleted),
        entry("new", "b.rs", SymbolKind::Function, SymbolChange::Added),
    ]);
    let callers = vec![
        vec![caller("c.rs", 3, false), caller("a.rs", 9, true)],
        vec![caller("d.rs", 4, false)],
        vec![caller("a.rs", 1, true)],
        vec![caller("e.rs", 2, false)],
    ];
    (d, callers)
}

#[test]
fn safety_report_lists_risky_changes_with_untouched_callers() {
    let (d, callers) = safety_fixture();
    let r = compute_safety(&d, &callers);
    assert_eq!(r.issues.len(), 1);
    assert_eq!(r.issues[0].symbol, "foo");
    assert_eq!(r.issues[0].risk, RiskLevel::High);
    assert_eq!(r.issues[0].unmodified_callers.len(), 1);
    assert_eq!(r.issues[0].unmodified_callers[0].file, "c.rs");
    assert_eq!(r.safe_changes_count, 1);
}

#[test]
fn body_safety_report_lists_body_only_changes() {
    let (d, callers) = safety_fixture();
    let r = compute_body_safety(&d, &callers);
    assert_eq!(r.issues.len(), 1);
    assert_eq!(r.issues[0].symbol, "bar");
    assert_eq!(r.issues[0].risk, RiskLevel::Medium);
    assert_eq!(r.safe_changes_count, 0);
}

#[test]
fn impact_counts_untouched_callers_and_marks_tests() {
    let d = diff_with(vec![
        entry("foo", "a.rs", SymbolKind::Function, modified(false, true)),
        entry("gone", "a.rs", SymbolKind::Function, SymbolChange::Deleted),
    ]);
    assert_eq!(find_symbol_entry(&d, "gone", "a.rs"), Some(1));
    let tests = vec![test_site("t1", "a.rs"), test_site("t2", "tests/t.rs")];
    let r = compute_impact(&d, "foo", "a.rs", vec![caller("a.rs", 1, true), caller("z.rs", 2, false)], &tests).unwrap();
    assert_eq!(r.symbol, "foo");
    assert_eq!(r.unmodified_callers_count, 1);
    assert_eq!(r.base_callers.len(), 2);
    assert_eq!(r.risk, RiskLevel::Medium);
    assert_eq!(r.tests.len(), 2);
    assert!(r.tests[0].also_modified_in_pr);
    assert!(!r.tests[1].also_modified_in_pr);
    let high = compute_impact(&d, "gone", "a.rs", vec![caller("z.rs", 2, false)], &[]).unwrap();
    assert_eq!(high.risk, RiskLevel::High);
    let low = compute_impact(&d, "gone", "a.rs", vec![caller("a.rs", 2, true)], &[]).unwrap();
    assert_eq!(low.risk, RiskLevel::Low);
    assert_eq!(low.unmodified_callers_count, 0);
    assert!(compute_impact(&d, "foo", "b.rs", vec![], &[]).is_none());
}

#[test]
fn test_coverage_counts_distinct_test_names() {
    let d = diff_with(vec![
        entry("foo", "a.rs", SymbolKind::Function, modified(false, true)),
        entry("bar", "b.rs", SymbolKind::Function, SymbolChange::Added),
        entry("imp", "b.rs", SymbolKind::Import, SymbolChange::Added),
        entry("gone", "a.rs", SymbolKind::Function, SymbolChange::Deleted),
    ]);
    let tests = vec![
        vec![test_site("t1", "x.rs"), test_site("t1", "y.rs"), test_site("t2", "x.rs")],
        vec![],
        vec![test_site("t3", "x.rs")],
        vec![test_site("t4", "x.rs")],
    ];
    let r = compute_test_coverage(&d, &tests);
    assert_eq!(r.covered.len(), 1);
    assert_eq!(r.covered[0].symbol, "foo");
    assert_eq!(r.covered[0].test_count, 2);
    assert_eq!(r.uncovered.len(), 1);
    assert_eq!(r.uncovered[0].symbol, "bar");
    assert_eq!(r.uncovered[0].change, "added");
    assert_eq!(r.coverage_ratio, "1/2");
}

#[test]
fn test_coverage_of_no_symbols() {
    let d = diff_with(vec![]);
    let r = compute_test_coverage(&d, &vec![]);
    assert!(r.covered.is_empty() && r.uncovered.is_empty());
    assert_eq!(r.coverage_ratio, "0/0");
}
