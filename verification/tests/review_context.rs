use coderlm_server::model::{FileEntry, Language, ProjectIndex, Symbol, SymbolKind};
use coderlm_server::review::context::{
    build_changed_ranges, build_excerpt, cached_file_context, compute_file_context, diff_or_none, compute_symbol_diff, determine_change_type,
    expand_and_merge_ranges, find_file_entry, get_symbol_line_range, get_symbol_source_and_range,
    parse_hunk_ranges, sym_to_context_entry, symbol_source_locations, ChangeType, ReadingStrategy,
};
use coderlm_server::review::cache::ReviewCache;
use coderlm_server::review::diff::ReviewDiff;
use coderlm_server::review::{
    DiffStats, FileChangeStatus, FileDiffEntry, ReviewQueryError, SymbolChange, SymbolDiffEntry,
};

fn sym(name: &str, file: &str, lines: (usize, usize)) -> Symbol {
    Symbol {
        name: name.to_string(),
        kind: SymbolKind::Function,
        file: file.to_string(),
        line_range: lines,
        byte_range: (0, 0),
        signature: format!("fn {}()", name),
        body: String::new(),
        body_hash: 0,
    }
}

fn entry(name: &str, file: &str, change: SymbolChange) -> SymbolDiffEntry {
    SymbolDiffEntry { name: name.to_string(), file: file.to_string(), kind: SymbolKind::Function, change }
}

fn modified(sig: bool) -> SymbolChange {
    SymbolChange::Modified {
        signature_changed: sig,
        old_signature: "fn run()".to_string(),
        new_signature: if sig { "fn run(x: u8)".to_string() } else { "fn run()".to_string() },
        body_changed: true,
    }
}

fn file_entry(path: &str, status: FileChangeStatus, old_path: Option<&str>) -> FileDiffEntry {
    FileDiffEntry { path: path.to_string(), status, old_path: old_path.map(|s| s.to_string()), language: Language::Rust }
}

fn sample() -> (ReviewDiff, ProjectIndex, ProjectIndex) {
    let diff = ReviewDiff {
        file_diffs: vec![
            file_entry("src/a.rs", FileChangeStatus::Modified, None),
            file_entry("src/gone.rs", FileChangeStatus::Deleted, None),
            file_entry("src/new.rs", FileChangeStatus::Renamed, Some("src/old.rs")),
        ],
        symbol_diffs: vec![
            entry("run", "src/a.rs", modified(true)),
            entry("other", "src/b.rs", SymbolChange::Added),
            entry("gone", "src/a.rs", SymbolChange::Deleted),
            entry(
                "moved",
                "src/new.rs",
                SymbolChange::Moved { old_file: "src/old.rs".to_string(), old_name: None, signature_changed: false, body_changed: true },
            ),
        ],
        stats: DiffStats::default(),
    };
    let base = ProjectIndex {
        files: vec![],
        symbols: vec![sym("run", "src/a.rs", (2, 3)), sym("gone", "src/a.rs", (5, 6)), sym("moved", "src/old.rs", (1, 9))],
    };
    let head = ProjectIndex { files: vec![FileEntry { path: "src/a.rs".to_string(), language: Language::Rust, symbols_extracted: true }], symbols: vec![sym("run", "src/a.rs", (2, 4)), sym("moved", "src/new.rs", (3, 8))] };
    (diff, base, head)
}

#[test]
fn hunk_headers_give_head_ranges() {
    let patch = "--- a/x.rs\n+++ b/x.rs\n@@ -1,3 +4,2 @@ fn main\n ctx\n@@ -10 +7 @@\n@@ -3,2 +2,0 @@\n+x\n";
    assert_eq!(parse_hunk_ranges(patch), vec![(4, 5), (7, 7)]);
    assert!(parse_hunk_ranges("no hunks here\n").is_empty());
}

#[test]
fn change_type_follows_status_and_additions() {
    assert_eq!(determine_change_type(&FileChangeStatus::Added, ""), ChangeType::NewFile);
    assert_eq!(determine_change_type(&FileChangeStatus::Deleted, "+x"), ChangeType::DeletedFile);
    assert_eq!(determine_change_type(&FileChangeStatus::Modified, "+++ b/x\n-old\n+new\n"), ChangeType::Modified);
    assert_eq!(
        determine_change_type(&FileChangeStatus::Renamed, "--- a/x\n+++ b/x\n-old\n"),
        ChangeType::ModifiedDeletionsOnly
    );
}

#[test]
fn windows_expand_clamp_sort_and_merge() {
    assert_eq!(expand_and_merge_ranges(&[(10, 12), (30, 31), (14, 15)], 2, 100), vec![(8, 17), (28, 33)]);
    assert_eq!(expand_and_merge_ranges(&[(1, 2)], 5, 4), vec![(1, 4)]);
    // Adjacent windows merge; separated ones do not.
    assert_eq!(expand_and_merge_ranges(&[(1, 2), (3, 4), (6, 6)], 0, 10), vec![(1, 4), (6, 6)]);
    assert!(expand_and_merge_ranges(&[], 3, 10).is_empty());
    assert!(expand_and_merge_ranges(&[(1, 2)], 3, 0).is_empty());
}

#[test]
fn excerpts_are_numbered_and_clamped() {
    let lines: Vec<String> = vec!["a".to_string(), "b".to_string(), "c".to_string()];
    let x = build_excerpt(&lines, 2, 3);
    assert_eq!((x.start_line, x.end_line), (2, 3));
    assert_eq!(x.content, "     2 │ b\n     3 │ c");
    let y = build_excerpt(&lines, 0, 10);
    assert_eq!((y.start_line, y.end_line), (1, 3));
    assert_eq!(y.content, "     1 │ a\n     2 │ b\n     3 │ c");
    let z = build_excerpt(&lines, 3, 2);
    assert_eq!(z.content, "");
    let many: Vec<String> = (0..1_000_000).map(|_| String::new()).collect();
    assert_eq!(build_excerpt(&many, 999_999, 999_999).content, "999999 │ ");
    assert_eq!(build_excerpt(&[], 1, 1).end_line, 0);
}

#[test]
fn line_ranges_come_from_the_right_snapshot() {
    let (diff, base, head) = sample();
    assert_eq!(get_symbol_line_range(&base, &head, &diff.symbol_diffs[0], "src/a.rs"), (2, 4));
    assert_eq!(get_symbol_line_range(&base, &head, &diff.symbol_diffs[2], "src/a.rs"), (5, 6));
    assert_eq!(get_symbol_line_range(&base, &head, &diff.symbol_diffs[1], "src/b.rs"), (0, 0));
}

#[test]
fn context_entries_flatten_changes() {
    let (diff, _, _) = sample();
    let m = sym_to_context_entry(&diff.symbol_diffs[0], (2, 4));
    assert_eq!(m.change, "modified");
    assert_eq!(m.signature_changed, Some(true));
    assert_eq!(m.old_signature.as_deref(), Some("fn run()"));
    assert_eq!(m.new_signature.as_deref(), Some("fn run(x: u8)"));
    assert_eq!(m.body_changed, Some(true));
    assert!(m.old_file.is_none());
    let a = sym_to_context_entry(&diff.symbol_diffs[1], (0, 0));
    assert_eq!(a.change, "added");
    assert!(a.signature_changed.is_none() && a.body_changed.is_none());
    let v = sym_to_context_entry(&diff.symbol_diffs[3], (3, 8));
    assert_eq!(v.change, "moved");
    assert_eq!(v.old_file.as_deref(), Some("src/old.rs"));
    assert!(v.old_signature.is_none());
    assert_eq!(v.line_range, (3, 8));
}

#[test]
fn changed_ranges_name_overlapping_symbols() {
    let (diff, _, _) = sample();
    let syms = vec![
        sym_to_context_entry(&diff.symbol_diffs[0], (2, 4)),
        sym_to_context_entry(&diff.symbol_diffs[2], (5, 6)),
        sym_to_context_entry(&diff.symbol_diffs[1], (0, 0)),
    ];
    let r = build_changed_ranges(&[(1, 2), (6, 9), (20, 21)], &syms);
    assert_eq!(r.len(), 3);
    assert_eq!((r[0].start, r[0].end), (1, 2));
    assert_eq!(r[0].symbols, vec!["run".to_string()]);
    assert_eq!(r[1].symbols, vec!["gone".to_string()]);
    assert!(r[2].symbols.is_empty());
}

#[test]
fn file_entries_are_found_by_path() {
    let (diff, _, _) = sample();
    assert_eq!(find_file_entry(&diff, "src/gone.rs"), Some(1));
    assert_eq!(find_file_entry(&diff, "src/old.rs"), None);
}

const PATCH: &str = "--- a/src/a.rs\n+++ b/src/a.rs\n@@ -1,3 +1,4 @@\n l1\n+l2\n l3\n";

#[test]
fn file_context_of_a_short_modified_file() {
    let (diff, base, head) = sample();
    let fc = compute_file_context(&diff, &base, &head, "src/a.rs", PATCH, Some("l1\nl2\nl3\nl4\n"), 50, 500).unwrap();
    assert_eq!(fc.file, "src/a.rs");
    assert_eq!(fc.status, FileChangeStatus::Modified);
    assert_eq!(fc.change_type, ChangeType::Modified);
    assert_eq!(fc.total_lines, 4);
    assert_eq!(fc.patch, PATCH);
    assert_eq!(fc.reading_strategy, ReadingStrategy::FullFile);
    assert_eq!(fc.symbols.len(), 2);
    assert_eq!(fc.symbols[0].name, "run");
    assert_eq!(fc.symbols[0].line_range, (2, 4));
    assert_eq!(fc.symbols[1].name, "gone");
    assert_eq!(fc.symbols[1].line_range, (5, 6));
    assert_eq!(fc.changed_ranges.len(), 1);
    assert_eq!((fc.changed_ranges[0].start, fc.changed_ranges[0].end), (1, 4));
    assert_eq!(fc.changed_ranges[0].symbols, vec!["run".to_string()]);
    assert_eq!(fc.source_excerpts.len(), 1);
    assert_eq!(fc.source_excerpts[0].content, "     1 │ l1\n     2 │ l2\n     3 │ l3\n     4 │ l4");
}

#[test]
fn file_context_of_a_long_file_uses_windows() {
    let (diff, base, head) = sample();
    let text: String = (1..=30).map(|i| format!("line{}\n", i)).collect();
    let patch = "@@ -10,1 +10,2 @@\n+x\n@@ -25 +26 @@\n+y\n";
    let fc = compute_file_context(&diff, &base, &head, "src/a.rs", patch, Some(&text), 1, 20).unwrap();
    assert_eq!(fc.total_lines, 30);
    assert_eq!(fc.reading_strategy, ReadingStrategy::ChangedRegionsWithContext);
    assert_eq!(fc.source_excerpts.len(), 2);
    assert_eq!((fc.source_excerpts[0].start_line, fc.source_excerpts[0].end_line), (9, 12));
    assert_eq!((fc.source_excerpts[1].start_line, fc.source_excerpts[1].end_line), (25, 27));
    assert_eq!(fc.source_excerpts[1].content, "    25 │ line25\n    26 │ line26\n    27 │ line27");
}

#[test]
fn file_context_of_a_deleted_file_reads_nothing() {
    let (diff, base, head) = sample();
    let fc = compute_file_context(&diff, &base, &head, "src/gone.rs", "-x\n", Some("a\nb\n"), 50, 500).unwrap();
    assert_eq!(fc.change_type, ChangeType::DeletedFile);
    assert_eq!(fc.reading_strategy, ReadingStrategy::NoSource);
    assert_eq!(fc.total_lines, 2);
    assert!(fc.source_excerpts.is_empty());
    let none = compute_file_context(&diff, &base, &head, "src/gone.rs", "-x\n", None, 50, 500).unwrap();
    assert_eq!(none.total_lines, 0);
}

#[test]
fn file_context_errors() {
    let (diff, base, head) = sample();
    match compute_file_context(&diff, &base, &head, "nope.rs", "", Some(""), 50, 500) {
        Err(ReviewQueryError::FileNotInDiff { file }) => assert_eq!(file, "nope.rs"),
        other => panic!("unexpected {:?}", other.map(|r| r.file)),
    }
    match compute_file_context(&diff, &base, &head, "src/a.rs", PATCH, None, 50, 500) {
        Err(ReviewQueryError::SourceUnreadable { file }) => assert_eq!(file, "src/a.rs"),
        other => panic!("unexpected {:?}", other.map(|r| r.file)),
    }
}

#[test]
fn symbol_source_and_range() {
    let (_, base, _) = sample();
    let (src, lr) = get_symbol_source_and_range(&base, "run", "src/a.rs", Some("fn run() {}".to_string()));
    assert_eq!(src.as_deref(), Some("fn run() {}"));
    assert_eq!(lr, Some((2, 3)));
    let (src2, lr2) = get_symbol_source_and_range(&base, "missing", "src/a.rs", None);
    assert!(src2.is_none() && lr2.is_none());
}

#[test]
fn symbol_locations_follow_the_change() {
    let (diff, _, _) = sample();
    assert_eq!(
        symbol_source_locations(&diff, "run", "src/a.rs").unwrap(),
        (Some("src/a.rs".to_string()), Some("src/a.rs".to_string()))
    );
    assert_eq!(symbol_source_locations(&diff, "other", "src/b.rs").unwrap(), (None, Some("src/b.rs".to_string())));
    assert_eq!(symbol_source_locations(&diff, "gone", "src/a.rs").unwrap(), (Some("src/a.rs".to_string()), None));
    assert_eq!(
        symbol_source_locations(&diff, "moved", "src/new.rs").unwrap(),
        (Some("src/old.rs".to_string()), Some("src/new.rs".to_string()))
    );
    assert!(matches!(
        symbol_source_locations(&diff, "run", "src/b.rs"),
        Err(ReviewQueryError::SymbolNotInDiff { .. })
    ));
}

#[test]
fn symbol_diff_renders_a_unified_diff() {
    let (diff, base, head) = sample();
    let d = compute_symbol_diff(
        &diff,
        &base,
        &head,
        "run",
        "src/a.rs",
        Some("fn run() {\n    1\n}\n".to_string()),
        Some("fn run(x: u8) {\n    1\n}\n".to_string()),
    )
    .unwrap();
    assert_eq!(d.change, "modified");
    assert_eq!(d.signature_changed, Some(true));
    assert_eq!(d.base_line_range, Some((2, 3)));
    assert_eq!(d.head_line_range, Some((2, 4)));
    let text = d.diff.expect("the two versions differ");
    assert!(text.starts_with("--- base\n+++ head\n@@ "));
    assert!(text.contains("-fn run() {\n"));
    assert!(text.contains("+fn run(x: u8) {\n"));
}

#[test]
fn symbol_diff_of_equal_sources_has_no_diff() {
    let (diff, base, head) = sample();
    let d = compute_symbol_diff(&diff, &base, &head, "moved", "src/new.rs", Some("same\n".to_string()), Some("same\n".to_string()))
        .unwrap();
    assert_eq!(d.change, "moved");
    assert!(d.diff.is_none());
    assert_eq!(d.base_line_range, Some((1, 9)));
    assert_eq!(d.head_line_range, Some((3, 8)));
}

#[test]
fn symbol_diff_of_added_and_missing_symbols() {
    let (diff, base, head) = sample();
    let d = compute_symbol_diff(&diff, &base, &head, "other", "src/b.rs", Some("ignored".to_string()), Some("fn other() {}".to_string()))
        .unwrap();
    assert_eq!(d.change, "added");
    assert!(d.base_source.is_none());
    assert_eq!(d.head_source.as_deref(), Some("fn other() {}"));
    assert!(d.diff.is_none());
    match compute_symbol_diff(&diff, &base, &head, "nope", "src/a.rs", None, None) {
        Err(ReviewQueryError::SymbolNotInDiff { symbol, file }) => {
            assert_eq!(symbol, "nope");
            assert_eq!(file, "src/a.rs");
        },
        other => panic!("unexpected {:?}", other.map(|r| r.symbol)),
    }
}

#[test]
fn cached_file_context_reuses_the_stored_bundle_until_invalidated() {
    let (diff, base, head) = sample();
    let mut cache = ReviewCache::new();
    let first =
        cached_file_context(&mut cache, &diff, &base, &head, "src/a.rs", PATCH, Some("l1\nl2\nl3\nl4\n"), 50, 500)
            .unwrap();
    assert_eq!(first.total_lines, 4);
    assert_eq!(cache.file_diff("src/a.rs").as_deref(), Some(PATCH));
    assert!(std::sync::Arc::ptr_eq(&cache.file_context("src/a.rs").unwrap(), &first));
    // A later call hands out the stored bundle, whatever the other arguments.
    let again = cached_file_context(&mut cache, &diff, &base, &head, "src/a.rs", "", None, usize::MAX, 0).unwrap();
    assert!(std::sync::Arc::ptr_eq(&first, &again));
    // Once the file is invalidated, the bundle is computed afresh.
    cache.invalidate_files(&["src/a.rs".to_string()]);
    assert!(cache.file_context("src/a.rs").is_none());
    let fresh = cached_file_context(&mut cache, &diff, &base, &head, "src/a.rs", PATCH, Some("l1\n"), 50, 500).unwrap();
    assert!(!std::sync::Arc::ptr_eq(&first, &fresh));
    assert_eq!(fresh.total_lines, 1);
}

#[test]
fn cached_file_context_stores_nothing_for_files_outside_the_diff() {
    let (diff, base, head) = sample();
    let mut cache = ReviewCache::new();
    let r = cached_file_context(&mut cache, &diff, &base, &head, "nope.rs", PATCH, Some("x\n"), 50, 500);
    assert!(matches!(r, Err(ReviewQueryError::FileNotInDiff { .. })));
    assert!(cache.file_diff("nope.rs").is_none());
    assert!(cache.file_context("nope.rs").is_none());
    // An unreadable head version fails, but the fetched patch is kept.
    let r = cached_file_context(&mut cache, &diff, &base, &head, "src/a.rs", PATCH, None, 50, 500);
    assert!(matches!(r, Err(ReviewQueryError::SourceUnreadable { .. })));
    assert_eq!(cache.file_diff("src/a.rs").as_deref(), Some(PATCH));
    assert!(cache.file_context("src/a.rs").is_none());
}

#[test]
fn empty_diffs_are_reported_as_none() {
    assert_eq!(diff_or_none(String::new()), None);
    assert_eq!(diff_or_none("--- base\n+++ head\n".to_string()), Some("--- base\n+++ head\n".to_string()));
}
