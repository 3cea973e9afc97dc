use std::sync::Arc;

use coderlm_server::git::{FileDiff, FileStatus};
use coderlm_server::model::{FileEntry, Language, ProjectIndex, Symbol, SymbolKind};
use coderlm_server::review::cache::ReviewCache;
use coderlm_server::review::lifecycle::{
    apply_update, creation_status, finish_review, git_diff_failed, update_needed, update_status, CreationEvent,
    UpdateEvent,
};
use coderlm_server::review::{ReviewStatus, SafetyReport};
use coderlm_server::tools::ToolError;

fn func(name: &str, file: &str, sig: &str, hash: u64) -> Symbol {
    Symbol {
        name: name.to_string(),
        kind: SymbolKind::Function,
        file: file.to_string(),
        line_range: (1, 3),
        byte_range: (0, 0),
        signature: sig.to_string(),
        body: String::new(),
        body_hash: hash,
    }
}

fn file(path: &str) -> FileEntry {
    FileEntry { path: path.to_string(), language: Language::Rust, symbols_extracted: true }
}

fn fd(path: &str, status: FileStatus) -> FileDiff {
    FileDiff { path: path.to_string(), status }
}

fn projects() -> (ProjectIndex, ProjectIndex) {
    let base = ProjectIndex { files: vec![file("lib.rs")], symbols: vec![func("run", "lib.rs", "fn run()", 1)] };
    let head = ProjectIndex {
        files: vec![file("lib.rs"), file("new.rs")],
        symbols: vec![func("run", "lib.rs", "fn run(x: u8)", 2), func("fresh", "new.rs", "fn fresh()", 3)],
    };
    (base, head)
}

#[test]
fn a_review_becomes_ready_with_its_diff() {
    let (base, head) = projects();
    let (status, diff) = finish_review(&base, &head, Ok(vec![fd("lib.rs", FileStatus::Modified), fd("new.rs", FileStatus::Added)]));
    assert!(matches!(status, ReviewStatus::Ready));
    let d = diff.unwrap();
    assert_eq!(d.file_diffs.len(), 2);
    assert_eq!(d.stats.symbols_modified, 1);
    assert_eq!(d.stats.symbols_added, 1);
}

#[test]
fn a_failed_git_diff_fails_the_review() {
    let (base, head) = projects();
    let (status, diff) = finish_review(&base, &head, Err("bad revision".to_string()));
    assert!(matches!(status, ReviewStatus::Error(ref m) if m == "bad revision"));
    assert!(diff.is_none());
}

#[test]
fn updates_to_the_same_head_do_nothing() {
    assert!(!update_needed("abc", "abc"));
    assert!(update_needed("abc", "abd"));
    match git_diff_failed("boom") {
        ToolError::Internal(m) => assert_eq!(m, "git diff failed: boom"),
        other => panic!("unexpected {:?}", other),
    }
}

#[test]
fn an_update_recomputes_and_forgets_the_changed_files() {
    let (base, head) = projects();
    let (_, old) = finish_review(&base, &base, Ok(vec![fd("lib.rs", FileStatus::Modified)]));
    let old = old.unwrap();
    assert_eq!(old.stats.symbols_modified, 0);
    let mut cache = ReviewCache::new();
    cache.store_file_diff("lib.rs".to_string(), "old patch".to_string());
    cache.store_file_diff("other.rs".to_string(), "kept".to_string());
    cache.store_safety_report(Arc::new(SafetyReport { issues: vec![], safe_changes_count: 0 }));
    let full = vec![fd("lib.rs", FileStatus::Modified), fd("new.rs", FileStatus::Added)];
    let changed = vec!["lib.rs".to_string(), "new.rs".to_string()];
    let d = apply_update(&mut cache, &old, &base, &head, &full, &changed);
    assert_eq!(d.file_diffs.len(), 2);
    assert_eq!(d.stats.symbols_modified, 1);
    assert_eq!(d.stats.symbols_added, 1);
    assert!(cache.file_diff("lib.rs").is_none());
    assert_eq!(cache.file_diff("other.rs").as_deref(), Some("kept"));
    assert!(cache.safety_report().is_none());
}

#[test]
fn creation_statuses_move_forward() {
    let s = creation_status(ReviewStatus::Indexing, CreationEvent::DiffComputed);
    assert!(matches!(s, ReviewStatus::Indexing));
    let s = creation_status(s, CreationEvent::SymbolsExtracted);
    assert!(matches!(s, ReviewStatus::Computing));
    let ready = creation_status(creation_status(ReviewStatus::Computing, CreationEvent::DiffComputed), CreationEvent::GitFailed("late".to_string()));
    assert!(matches!(ready, ReviewStatus::Ready));
    let failed = creation_status(ReviewStatus::Computing, CreationEvent::GitFailed("no repo".to_string()));
    assert!(matches!(failed, ReviewStatus::Error(ref m) if m == "no repo"));
    let still = creation_status(failed, CreationEvent::SymbolsExtracted);
    assert!(matches!(still, ReviewStatus::Error(_)));
}

#[test]
fn updates_return_the_review_to_ready() {
    let s = update_status(ReviewStatus::Ready, UpdateEvent::Started);
    assert!(matches!(s, ReviewStatus::Updating));
    assert!(matches!(update_status(ReviewStatus::Updating, UpdateEvent::GitFailed), ReviewStatus::Ready));
    assert!(matches!(update_status(s, UpdateEvent::Applied), ReviewStatus::Ready));
    assert!(matches!(update_status(ReviewStatus::Indexing, UpdateEvent::Started), ReviewStatus::Indexing));
}
