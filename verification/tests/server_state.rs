use std::sync::Arc;

use coderlm_server::model::{symbols_extracted, FileEntry, Language, ProjectIndex, Symbol, SymbolKind};
use coderlm_server::params::{CreateReviewParams, ReviewFileContextParams};
use coderlm_server::review::cache::{impact_key, keeps_impact_entry, key_file_part, ReviewCache};
use coderlm_server::review::complexity::{ComplexityDelta, ComplexityMetrics};
use coderlm_server::review::diff::ReviewDiff;
use coderlm_server::review::persistence::{join_path, review_path, reviews_dir};
use coderlm_server::review::context::{ChangeType, FileContextResult, ReadingStrategy};
use coderlm_server::review::{
    DiffStats, FileChangeStatus, ImpactResult, ReviewStatus, RiskLevel, SafetyReport, SymbolChange, SymbolDiffEntry,
    TestCoverageReport,
};
use coderlm_server::state::{Admission, Registry, BASE_CACHE_CAPACITY};
use coderlm_server::tools::{
    active_review, await_review, check_review_status, create_review_step, depth_param, filter_symbols, poll_outcome, regression_count, status_name,
    symbol_matches, uses_base_branch, CreateStep, PollOutcome, CREATE_REVIEW_POLLS, ReviewSlot, ToolError,
};

// ---------------------------------------------------------------------------
// Project registry
// ---------------------------------------------------------------------------

#[test]
fn admitting_projects_evicts_the_least_recently_used() {
    let mut r = Registry::new(2);
    assert!(matches!(r.admit_project("/a", 10), Ok(Admission::Indexed { evicted: None })));
    assert!(matches!(r.admit_project("/b", 20), Ok(Admission::Indexed { evicted: None })));
    // Using /a again makes /b the least recently used.
    assert!(matches!(r.admit_project("/a", 30), Ok(Admission::Existing)));
    r.add_session("s1", "/b");
    r.add_session("s2", "/a");
    match r.admit_project("/c", 40) {
        Ok(Admission::Indexed { evicted: Some(e) }) => assert_eq!(e, "/b"),
        other => panic!("unexpected {:?}", other),
    }
    assert_eq!(r.last_active("/a"), Some(30));
    assert_eq!(r.last_active("/c"), Some(40));
    assert_eq!(r.last_active("/b"), None);
    // The sessions on the evicted project went with it.
    assert_eq!(r.session_count(), 1);
    assert!(r.session("s1").is_none());
    assert_eq!(r.session("s2").unwrap().project_path, "/a");
    assert!(r.project_count() <= r.max_projects);
}

#[test]
fn touching_a_project_changes_the_eviction_order() {
    let mut r = Registry::new(2);
    r.admit_project("/a", 1).unwrap();
    r.admit_project("/b", 2).unwrap();
    r.touch_project("/a", 3);
    r.touch_project("/missing", 4);
    assert_eq!(r.evict_lru().unwrap(), "/b");
    assert_eq!(r.evict_lru().unwrap(), "/a");
    match r.evict_lru() {
        Err(ToolError::Internal(m)) => assert_eq!(m, "No projects to evict"),
        other => panic!("unexpected {:?}", other),
    }
}

#[test]
fn a_registry_without_room_cannot_admit() {
    let mut r = Registry::new(0);
    assert!(matches!(r.admit_project("/a", 1), Err(ToolError::Internal(_))));
    assert_eq!(r.project_count(), 0);
}

#[test]
fn session_lookups_report_each_failure() {
    let mut r = Registry::new(3);
    r.admit_project("/p", 1).unwrap();
    r.add_session("s", "/p");
    r.add_session("orphan", "/gone");
    assert_eq!(r.get_project_for_session("s").unwrap(), "/p");
    match r.get_project_for_session("nobody") {
        Err(ToolError::NotFound(m)) => assert_eq!(m, "Session 'nobody' not found"),
        other => panic!("unexpected {:?}", other),
    }
    match r.get_project_for_session("orphan") {
        Err(ToolError::Gone(m)) => assert_eq!(
            m,
            "Project at '/gone' was evicted due to capacity limits. Start a new session to re-index, or increase --max-projects."
        ),
        other => panic!("unexpected {:?}", other),
    }
    match r.get_review_for_session("s") {
        Err(ToolError::BadRequest(m)) => {
            assert_eq!(m, "No review attached to this session. Use POST /reviews/{id}/attach first.")
        },
        other => panic!("unexpected {:?}", other),
    }
    r.add_review("rev-1", "c0", "/tmp/wt0");
    r.attach_review("s", Some("rev-1".to_string()));
    assert_eq!(r.get_review_for_session("s").unwrap(), "rev-1");
    r.attach_review("s", Some("rev-2".to_string()));
    match r.get_review_for_session("s") {
        Err(ToolError::Gone(m)) => assert_eq!(m, "The review was deleted. Create a new one with POST /reviews."),
        other => panic!("unexpected {:?}", other),
    }
    assert!(matches!(r.get_review_for_session("nobody"), Err(ToolError::NotFound(_))));
}

#[test]
fn base_cache_keeps_the_most_recently_used_commits() {
    let mut r = Registry::new(5);
    r.cache_base("c1", 1);
    r.cache_base("c2", 2);
    r.cache_base("c3", 3);
    assert!(r.use_cached_base("c1", 4));
    assert!(!r.use_cached_base("c9", 5));
    r.cache_base("c4", 6);
    // c2 was the least recently used and made room for c4.
    assert_eq!(r.cached_base_used("c1"), Some(4));
    assert_eq!(r.cached_base_used("c2"), None);
    assert_eq!(r.cached_base_used("c3"), Some(3));
    assert_eq!(r.cached_base_used("c4"), Some(6));
    assert_eq!(r.cached_base_count(), BASE_CACHE_CAPACITY);
    // Caching a kept commit again changes nothing.
    r.cache_base("c3", 7);
    assert_eq!(r.cached_base_count(), 3);
    assert_eq!(r.cached_base_used("c3"), Some(3));
}

#[test]
fn registering_a_review_again_replaces_it() {
    let mut r = Registry::new(2);
    r.add_review("r1", "c1", "/tmp/a");
    r.add_review("r2", "c2", "/tmp/b");
    r.add_review("r1", "c3", "/tmp/c");
    assert_eq!(r.review_count(), 2);
    let r1 = r.review("r1").unwrap();
    assert_eq!((r1.base_commit.as_str(), r1.base_root.as_str()), ("c3", "/tmp/c"));
    assert_eq!(r.review("r2").unwrap().base_commit, "c2");
}

#[test]
fn deleting_a_review_caches_its_base_and_forgets_its_project() {
    let mut r = Registry::new(5);
    r.admit_project("/head", 1).unwrap();
    r.admit_project("/tmp/wt", 2).unwrap();
    r.add_session("s", "/tmp/wt");
    r.add_session("t", "/head");
    r.add_review("r1", "abc123", "/tmp/wt");
    r.add_review("r2", "def456", "/tmp/wt2");
    match r.delete_review("nope", 3) {
        Err(ToolError::NotFound(m)) => assert_eq!(m, "Review 'nope' not found"),
        other => panic!("unexpected {:?}", other),
    }
    r.delete_review("r1", 3).unwrap();
    assert_eq!(r.review_count(), 1);
    assert!(r.review("r1").is_none());
    assert!(r.review("r2").is_some());
    assert!(matches!(r.delete_review("r1", 4), Err(ToolError::NotFound(_))));
    assert_eq!(r.project_count(), 1);
    assert_eq!(r.last_active("/head"), Some(1));
    assert_eq!(r.session_count(), 1);
    assert!(r.session("t").is_some());
    assert_eq!(r.cached_base_count(), 1);
    assert_eq!(r.cached_base_used("abc123"), Some(3));
    r.forget_project("/head");
    assert_eq!(r.project_count(), 0);
    assert_eq!(r.session_count(), 0);
}

// ---------------------------------------------------------------------------
// Tool decisions
// ---------------------------------------------------------------------------

#[test]
fn review_status_names_and_gate() {
    assert_eq!(status_name(&ReviewStatus::Indexing), "indexing");
    assert_eq!(status_name(&ReviewStatus::Computing), "computing");
    assert_eq!(status_name(&ReviewStatus::Updating), "updating");
    assert_eq!(status_name(&ReviewStatus::Ready), "ready");
    assert_eq!(status_name(&ReviewStatus::Error("x".to_string())), "error");
    assert!(check_review_status(&ReviewStatus::Ready).is_ok());
    assert!(check_review_status(&ReviewStatus::Updating).is_ok());
    match check_review_status(&ReviewStatus::Indexing) {
        Err(ToolError::BadRequest(m)) => {
            assert_eq!(m, "Review is not ready yet (status: indexing). Call get_review to check status.")
        },
        other => panic!("unexpected {:?}", other),
    }
    match check_review_status(&ReviewStatus::Computing) {
        Err(ToolError::BadRequest(m)) => {
            assert_eq!(m, "Review is not ready yet (status: computing). Call get_review to check status.")
        },
        other => panic!("unexpected {:?}", other),
    }
    match check_review_status(&ReviewStatus::Error("git diff failed".to_string())) {
        Err(ToolError::Internal(m)) => assert_eq!(m, "git diff failed"),
        other => panic!("unexpected {:?}", other),
    }
}

#[test]
fn active_review_resolution() {
    let reviews = vec![
        ReviewSlot { id: "r1".to_string(), status: ReviewStatus::Ready },
        ReviewSlot { id: "r2".to_string(), status: ReviewStatus::Computing },
    ];
    assert_eq!(active_review(&Some("r1".to_string()), &reviews).unwrap(), 0);
    match active_review(&None, &reviews) {
        Err(ToolError::BadRequest(m)) => assert_eq!(m, "No active review. Use create_review or set_active_review first."),
        other => panic!("unexpected {:?}", other),
    }
    match active_review(&Some("r9".to_string()), &reviews) {
        Err(ToolError::Gone(m)) => assert_eq!(m, "Active review was deleted."),
        other => panic!("unexpected {:?}", other),
    }
    assert!(matches!(active_review(&Some("r2".to_string()), &reviews), Err(ToolError::BadRequest(_))));
}

#[test]
fn depth_defaults_and_clamps() {
    assert_eq!(depth_param(None), 1);
    assert_eq!(depth_param(Some(0)), 1);
    assert_eq!(depth_param(Some(2)), 2);
    assert_eq!(depth_param(Some(7)), 3);
    assert!(uses_base_branch(Some("base")));
    assert!(!uses_base_branch(Some("head")));
    assert!(!uses_base_branch(None));
}

fn symbol_diff() -> ReviewDiff {
    let e = |name: &str, file: &str, kind: SymbolKind, change: SymbolChange| SymbolDiffEntry {
        name: name.to_string(),
        file: file.to_string(),
        kind,
        change,
    };
    ReviewDiff {
        file_diffs: vec![],
        symbol_diffs: vec![
            e("a", "x.rs", SymbolKind::Function, SymbolChange::Added),
            e("b", "y.rs", SymbolKind::Struct, SymbolChange::Deleted),
            e(
                "c",
                "x.rs",
                SymbolKind::Function,
                SymbolChange::Modified {
                    signature_changed: false,
                    old_signature: String::new(),
                    new_signature: String::new(),
                    body_changed: true,
                },
            ),
            e(
                "d",
                "x.rs",
                SymbolKind::Function,
                SymbolChange::Moved { old_file: "z.rs".to_string(), old_name: None, signature_changed: false, body_changed: false },
            ),
        ],
        stats: DiffStats::default(),
    }
}

fn names(v: &[SymbolDiffEntry]) -> Vec<&str> {
    v.iter().map(|e| e.name.as_str()).collect()
}

#[test]
fn symbol_listing_filters() {
    let d = symbol_diff();
    assert_eq!(names(&filter_symbols(&d, None, None, None)), vec!["a", "b", "c", "d"]);
    assert_eq!(names(&filter_symbols(&d, Some("added"), None, None)), vec!["a"]);
    assert_eq!(names(&filter_symbols(&d, Some("deleted"), None, None)), vec!["b"]);
    assert_eq!(names(&filter_symbols(&d, Some("modified"), None, None)), vec!["c"]);
    // An unknown change filter (such as "moved") selects everything.
    assert_eq!(names(&filter_symbols(&d, Some("moved"), Some("x.rs"), None)), vec!["a", "c", "d"]);
    assert_eq!(names(&filter_symbols(&d, None, None, Some(SymbolKind::Struct))), vec!["b"]);
    assert!(!symbol_matches(&d.symbol_diffs[0], Some("added"), Some("y.rs"), None));
    assert!(symbol_matches(&d.symbol_diffs[0], Some("added"), Some("x.rs"), Some(SymbolKind::Function)));
}

fn delta(regression: bool) -> ComplexityDelta {
    let m = ComplexityMetrics { lines: 1, max_nesting: 0, parameters: 0 };
    ComplexityDelta {
        symbol: "s".to_string(),
        file: "f".to_string(),
        kind: SymbolKind::Function,
        base: m,
        head: m,
        delta: m,
        regression,
    }
}

#[test]
fn regressions_are_counted() {
    assert_eq!(regression_count(&[delta(true), delta(false), delta(true)]), 2);
    assert_eq!(regression_count(&[]), 0);
}

#[test]
fn polling_a_review_being_created() {
    assert!(matches!(poll_outcome(&ReviewStatus::Indexing), PollOutcome::Pending));
    assert!(matches!(poll_outcome(&ReviewStatus::Computing), PollOutcome::Pending));
    assert!(matches!(poll_outcome(&ReviewStatus::Ready), PollOutcome::Ready));
    match poll_outcome(&ReviewStatus::Error("boom".to_string())) {
        PollOutcome::Failed(m) => assert_eq!(m, "Review indexing failed: boom"),
        other => panic!("unexpected {:?}", other),
    }
}

#[test]
fn create_review_steps() {
    assert!(matches!(create_review_step(1, Some(&ReviewStatus::Indexing)), CreateStep::Wait));
    assert!(matches!(create_review_step(239, Some(&ReviewStatus::Computing)), CreateStep::Wait));
    assert!(matches!(create_review_step(240, Some(&ReviewStatus::Ready)), CreateStep::Attach));
    match create_review_step(240, Some(&ReviewStatus::Indexing)) {
        CreateStep::Fail(m) => {
            assert_eq!(m, "Review indexing timed out after 120 seconds. Call get_review to check status.")
        },
        other => panic!("unexpected {:?}", other),
    }
    match create_review_step(3, Some(&ReviewStatus::Error("boom".to_string()))) {
        CreateStep::Fail(m) => assert_eq!(m, "Review indexing failed: boom"),
        other => panic!("unexpected {:?}", other),
    }
    match create_review_step(3, None) {
        CreateStep::Fail(m) => assert_eq!(m, "Review was removed during creation"),
        other => panic!("unexpected {:?}", other),
    }
    assert_eq!(CREATE_REVIEW_POLLS, 240);
}

#[test]
fn awaiting_a_review_stops_at_the_first_decision() {
    let (n, step) = await_review(|k| if k < 4 { Some(ReviewStatus::Computing) } else { Some(ReviewStatus::Ready) });
    assert_eq!(n, 5);
    assert!(matches!(step, CreateStep::Attach));
    let (n, step) = await_review(|_| Some(ReviewStatus::Indexing));
    assert_eq!(n, 240);
    assert!(matches!(step, CreateStep::Fail(_)));
    let (n, step) = await_review(|k| if k == 0 { Some(ReviewStatus::Indexing) } else { None });
    assert_eq!(n, 2);
    assert!(matches!(step, CreateStep::Fail(m) if m == "Review was removed during creation"));
}

#[test]
fn a_ready_review_is_attached_to_the_session() {
    let mut r = Registry::new(2);
    r.admit_project("/repo", 1).unwrap();
    r.add_session("s1", "/repo");
    r.add_review("rev1", "c1", "/tmp/wt1");
    assert!(r.get_review_for_session("s1").is_err());
    let (_, step) = await_review(|_| Some(ReviewStatus::Ready));
    assert!(r.settle_created_review("s1", "rev1", step).is_ok());
    assert_eq!(r.get_review_for_session("s1").unwrap(), "rev1");
}

#[test]
fn a_failed_review_is_not_attached() {
    let mut r = Registry::new(2);
    r.admit_project("/repo", 1).unwrap();
    r.add_session("s1", "/repo");
    r.add_review("rev1", "c1", "/tmp/wt1");
    let (_, step) = await_review(|_| Some(ReviewStatus::Error("no symbols".to_string())));
    assert_eq!(r.settle_created_review("s1", "rev1", step), Err("Review indexing failed: no symbols".to_string()));
    assert!(r.get_review_for_session("s1").is_err());
}

#[test]
fn parameter_defaults() {
    let p = CreateReviewParams { base_ref: "main".to_string(), head_ref: None };
    assert_eq!(p.head_ref_or_default(), "HEAD");
    let q = CreateReviewParams { base_ref: "main".to_string(), head_ref: Some("feature".to_string()) };
    assert_eq!(q.head_ref_or_default(), "feature");
    let c = ReviewFileContextParams { file: "a.rs".to_string(), context_lines: None, max_full_file_lines: Some(10) };
    assert_eq!(c.context_lines_or_default(), 50);
    assert_eq!(c.max_full_file_lines_or_default(), 10);
    let d = ReviewFileContextParams { file: "a.rs".to_string(), context_lines: Some(3), max_full_file_lines: None };
    assert_eq!(d.context_lines_or_default(), 3);
    assert_eq!(d.max_full_file_lines_or_default(), 500);
}

// ---------------------------------------------------------------------------
// Cache keys and persisted paths
// ---------------------------------------------------------------------------

#[test]
fn impact_keys_round_trip_their_file() {
    let k = impact_key("src/lib.rs", "run");
    assert_eq!(k, "src/lib.rs::run");
    assert_eq!(key_file_part(&k), "src/lib.rs");
    assert_eq!(key_file_part("no separator"), "no separator");
    assert_eq!(key_file_part("a::b::c"), "a");
    // A file ending in ':' does not read back: the first "::" is earlier.
    assert_eq!(key_file_part(&impact_key("a:", "b")), "a");
}

#[test]
fn invalidation_drops_entries_of_changed_files() {
    let changed = vec!["src/lib.rs".to_string(), "src/util.rs".to_string()];
    assert!(!keeps_impact_entry(&impact_key("src/lib.rs", "run"), &changed));
    assert!(keeps_impact_entry(&impact_key("src/main.rs", "main"), &changed));
    assert!(keeps_impact_entry("src/lib.rs", &["src/lib".to_string()]));
    assert!(keeps_impact_entry("anything", &[]));
}

#[test]
fn review_files_live_under_the_repository() {
    assert_eq!(reviews_dir("/repo"), "/repo/.coderlm/reviews");
    assert_eq!(reviews_dir("/repo/"), "/repo/.coderlm/reviews");
    assert_eq!(review_path("/repo", "abc"), "/repo/.coderlm/reviews/abc.json");
    assert_eq!(join_path("", "x"), "x");
    assert_eq!(join_path("/a", "/etc"), "/etc");
    assert_eq!(review_path("/repo", "/abs"), "/abs.json");
}

// ---------------------------------------------------------------------------
// Project index
// ---------------------------------------------------------------------------

fn index() -> ProjectIndex {
    let s = |name: &str, kind: SymbolKind, file: &str| Symbol {
        name: name.to_string(),
        kind,
        file: file.to_string(),
        line_range: (1, 2),
        byte_range: (0, 0),
        signature: String::new(),
        body: String::new(),
        body_hash: 0,
    };
    ProjectIndex {
        files: vec![
            FileEntry { path: "a.rs".to_string(), language: Language::Rust, symbols_extracted: true },
            FileEntry { path: "q.sql".to_string(), language: Language::Sql, symbols_extracted: false },
        ],
        symbols: vec![s("f", SymbolKind::Function, "a.rs"), s("g", SymbolKind::Method, "b.rs"), s("h", SymbolKind::Trait, "a.rs")],
    }
}

#[test]
fn project_index_lookups() {
    let p = index();
    assert_eq!(p.get("a.rs", "h").map(|s| s.kind), Some(SymbolKind::Trait));
    assert!(p.get("b.rs", "f").is_none());
    let in_a: Vec<String> = p.list_by_file("a.rs").into_iter().map(|s| s.name).collect();
    assert_eq!(in_a, vec!["f".to_string(), "h".to_string()]);
    assert_eq!(p.language_for_file("q.sql"), Language::Sql);
    assert_eq!(p.language_for_file("zzz"), Language::Other);
}

#[test]
fn symbol_extraction_waits_only_for_parsed_languages() {
    let p = index();
    assert!(symbols_extracted(&p.files));
    let mut files = p.files;
    files.push(FileEntry { path: "m.go".to_string(), language: Language::Go, symbols_extracted: false });
    assert!(!symbols_extracted(&files));
    assert!(Language::Scala.has_tree_sitter_support());
    assert!(!Language::Other.has_tree_sitter_support());
}

#[test]
fn symbol_kind_names_round_trip() {
    let kinds = [
        SymbolKind::Function,
        SymbolKind::Method,
        SymbolKind::Class,
        SymbolKind::Struct,
        SymbolKind::Enum,
        SymbolKind::Trait,
        SymbolKind::Interface,
        SymbolKind::Constant,
        SymbolKind::Variable,
        SymbolKind::Type,
        SymbolKind::Module,
        SymbolKind::Import,
        SymbolKind::Other,
    ];
    for k in kinds {
        assert_eq!(SymbolKind::from_name(&k.name()), Some(k));
    }
    assert_eq!(SymbolKind::Interface.name(), "interface");
    assert_eq!(SymbolKind::from_name("Function"), None);
    assert_eq!(SymbolKind::from_name("bogus"), None);
}

// ---------------------------------------------------------------------------
// Result cache
// ---------------------------------------------------------------------------


fn bundle(file: &str, total_lines: usize) -> Arc<FileContextResult> {
    Arc::new(FileContextResult {
        file: file.to_string(),
        status: FileChangeStatus::Modified,
        old_path: None,
        language: Language::Rust,
        total_lines,
        change_type: ChangeType::Modified,
        patch: String::new(),
        changed_ranges: vec![],
        symbols: vec![],
        source_excerpts: vec![],
        reading_strategy: ReadingStrategy::NoSource,
    })
}

fn impact(symbol: &str, file: &str) -> Arc<ImpactResult> {
    Arc::new(ImpactResult {
        symbol: symbol.to_string(),
        file: file.to_string(),
        change: SymbolChange::Added,
        base_callers: vec![],
        unmodified_callers_count: 0,
        tests: vec![],
        risk: RiskLevel::Low,
    })
}

fn safety(n: usize) -> Arc<SafetyReport> {
    Arc::new(SafetyReport { issues: vec![], safe_changes_count: n })
}

fn coverage(ratio: &str) -> Arc<TestCoverageReport> {
    Arc::new(TestCoverageReport { covered: vec![], uncovered: vec![], coverage_ratio: ratio.to_string() })
}

#[test]
fn cache_reads_give_back_writes() {
    let mut c = ReviewCache::new();
    assert!(c.file_diff("a.rs").is_none());
    assert!(c.impact_result("a.rs", "run").is_none());
    assert!(c.safety_report().is_none());
    let ctx = bundle("a.rs", 7);
    let run = impact("run", "a.rs");
    let report = safety(3);
    let cov = coverage("1/2");
    c.store_file_diff("a.rs".to_string(), "@@ -1 +1 @@".to_string());
    c.store_file_context("a.rs".to_string(), ctx.clone());
    c.store_impact_result("a.rs", "run", run.clone());
    c.store_safety_report(report.clone());
    c.store_test_coverage(cov.clone());
    assert_eq!(c.file_diff("a.rs").as_deref(), Some("@@ -1 +1 @@"));
    assert!(Arc::ptr_eq(&c.file_context("a.rs").unwrap(), &ctx));
    assert!(Arc::ptr_eq(&c.impact_result("a.rs", "run").unwrap(), &run));
    assert!(c.impact_result("a.rs", "walk").is_none());
    assert_eq!(c.safety_report().unwrap().safe_changes_count, 3);
    assert_eq!(c.test_coverage().unwrap().coverage_ratio, "1/2");
    let newer = impact("run", "a.rs");
    c.store_impact_result("a.rs", "run", newer.clone());
    assert!(Arc::ptr_eq(&c.impact_result("a.rs", "run").unwrap(), &newer));
    assert_eq!(ReviewCache::impact_key("a.rs", "run"), "a.rs::run");
}

#[test]
fn cache_invalidation_drops_changed_files_only() {
    let mut c = ReviewCache::new();
    c.store_file_diff("a.rs".to_string(), "da".to_string());
    c.store_file_diff("b.rs".to_string(), "db".to_string());
    c.store_file_context("a.rs".to_string(), bundle("a.rs", 1));
    c.store_file_context("b.rs".to_string(), bundle("b.rs", 2));
    c.store_impact_result("a.rs", "run", impact("run", "a.rs"));
    c.store_impact_result("b.rs", "walk", impact("walk", "b.rs"));
    c.store_safety_report(safety(1));
    c.store_test_coverage(coverage("0/0"));
    c.invalidate_files(&["a.rs".to_string()]);
    assert!(c.file_diff("a.rs").is_none());
    assert_eq!(c.file_diff("b.rs").as_deref(), Some("db"));
    assert!(c.file_context("a.rs").is_none());
    assert_eq!(c.file_context("b.rs").unwrap().total_lines, 2);
    assert!(c.impact_result("a.rs", "run").is_none());
    assert_eq!(c.impact_result("b.rs", "walk").unwrap().symbol, "walk");
    assert!(c.safety_report().is_none());
    assert!(c.test_coverage().is_none());
}

#[test]
fn restored_base_projects_skip_the_capacity_check() {
    let mut r = Registry::new(1);
    r.admit_project("/head", 1).unwrap();
    assert!(r.use_cached_base("c1", 2) == false);
    r.cache_base("c1", 2);
    assert!(r.use_cached_base("c1", 3));
    r.insert_project("/tmp/base", 3);
    assert_eq!(r.project_count(), 2);
    r.insert_project("/tmp/base", 4);
    assert_eq!(r.project_count(), 2);
    assert_eq!(r.last_active("/tmp/base"), Some(4));
    // The next admission evicts the least recently used, back to capacity.
    match r.admit_project("/other", 5) {
        Ok(Admission::Indexed { evicted: Some(e) }) => assert_eq!(e, "/head"),
        other => panic!("unexpected {:?}", other),
    }
    assert_eq!(r.project_count(), 2);
}
