//! Semantic review of a pull request: the base and head snapshots of a
//! repository compared file by file and symbol by symbol.

use vstd::prelude::*;

use crate::model::{Language, SymbolKind};

pub mod cache;
pub mod classification;
pub mod complexity;
pub mod context;
pub mod diff;
pub mod impact;
pub mod lifecycle;
pub mod imports;
pub mod persistence;
pub mod references;

verus! {

/// Lifecycle of a review.
#[derive(Debug)]
pub enum ReviewStatus {
    Indexing,
    Computing,
    /// Review is usable but an incremental update is in progress.
    Updating,
    Ready,
    Error(String),
}

/// How a file changed in the pull request.
#[derive(Clone, Copy, Debug, PartialEq, Eq, Structural)]
pub enum FileChangeStatus {
    Added,
    Deleted,
    Modified,
    Renamed,
}

/// One changed file of the review diff.
#[derive(Debug)]
pub struct FileDiffEntry {
    pub path: String,
    pub status: FileChangeStatus,
    /// Previous path for renames.
    pub old_path: Option<String>,
    pub language: Language,
}

/// How a symbol changed in the pull request.
#[derive(Debug)]
pub enum SymbolChange {
    Added,
    Deleted,
    Modified {
        signature_changed: bool,
        old_signature: String,
        new_signature: String,
        body_changed: bool,
    },
    Moved {
        old_file: String,
        /// Set when the symbol was renamed in addition to being moved.
        old_name: Option<String>,
        signature_changed: bool,
        body_changed: bool,
    },
}

/// One changed symbol of the review diff.
#[derive(Debug)]
pub struct SymbolDiffEntry {
    pub name: String,
    pub file: String,
    pub kind: SymbolKind,
    pub change: SymbolChange,
}

/// File and symbol counts by change type.
#[derive(Clone, Copy, Debug, PartialEq, Eq, Structural)]
pub struct DiffStats {
    pub files_added: usize,
    pub files_deleted: usize,
    pub files_modified: usize,
    pub files_renamed: usize,
    pub symbols_added: usize,
    pub symbols_deleted: usize,
    pub symbols_modified: usize,
    pub symbols_moved: usize,
}

impl Default for DiffStats {
    fn default() -> (s: Self)
        ensures
            s == (DiffStats {
                files_added: 0,
                files_deleted: 0,
                files_modified: 0,
                files_renamed: 0,
                symbols_added: 0,
                symbols_deleted: 0,
                symbols_modified: 0,
                symbols_moved: 0,
            }),
    {
        DiffStats {
            files_added: 0,
            files_deleted: 0,
            files_modified: 0,
            files_renamed: 0,
            symbols_added: 0,
            symbols_deleted: 0,
            symbols_modified: 0,
            symbols_moved: 0,
        }
    }
}

pub struct FileDiffEntryView {
    pub path: Seq<char>,
    pub status: FileChangeStatus,
    pub old_path: Option<Seq<char>>,
    pub language: Language,
}

pub enum SymbolChangeView {
    Added,
    Deleted,
    Modified {
        signature_changed: bool,
        old_signature: Seq<char>,
        new_signature: Seq<char>,
        body_changed: bool,
    },
    Moved {
        old_file: Seq<char>,
        old_name: Option<Seq<char>>,
        signature_changed: bool,
        body_changed: bool,
    },
}

pub struct SymbolDiffView {
    pub name: Seq<char>,
    pub file: Seq<char>,
    pub kind: SymbolKind,
    pub change: SymbolChangeView,
}

pub open spec fn opt_view(o: Option<String>) -> Option<Seq<char>> {
    match o {
        Some(s) => Some(s@),
        None => None,
    }
}

impl View for FileDiffEntry {
    type V = FileDiffEntryView;

    open spec fn view(&self) -> FileDiffEntryView {
        FileDiffEntryView {
            path: self.path@,
            status: self.status,
            old_path: opt_view(self.old_path),
            language: self.language,
        }
    }
}

impl View for SymbolChange {
    type V = SymbolChangeView;

    open spec fn view(&self) -> SymbolChangeView {
        match self {
            SymbolChange::Added => SymbolChangeView::Added,
            SymbolChange::Deleted => SymbolChangeView::Deleted,
            SymbolChange::Modified { signature_changed, old_signature, new_signature, body_changed } =>
                SymbolChangeView::Modified {
                    signature_changed: *signature_changed,
                    old_signature: old_signature@,
                    new_signature: new_signature@,
                    body_changed: *body_changed,
                },
            SymbolChange::Moved { old_file, old_name, signature_changed, body_changed } =>
                SymbolChangeView::Moved {
                    old_file: old_file@,
                    old_name: opt_view(*old_name),
                    signature_changed: *signature_changed,
                    body_changed: *body_changed,
                },
        }
    }
}

impl View for SymbolDiffEntry {
    type V = SymbolDiffView;

    open spec fn view(&self) -> SymbolDiffView {
        SymbolDiffView { name: self.name@, file: self.file@, kind: self.kind, change: self.change@ }
    }
}

/// Clones an optional string.
pub fn clone_opt(o: &Option<String>) -> (r: Option<String>)
    ensures
        r == *o,
{
    match o {
        Some(s) => Some(s.clone()),
        None => None,
    }
}

impl Clone for FileDiffEntry {
    fn clone(&self) -> (r: Self)
        ensures
            r == *self,
    {
        FileDiffEntry {
            path: self.path.clone(),
            status: self.status,
            old_path: clone_opt(&self.old_path),
            language: self.language,
        }
    }
}

impl Clone for SymbolChange {
    fn clone(&self) -> (r: Self)
        ensures
            r == *self,
    {
        match self {
            SymbolChange::Added => SymbolChange::Added,
            SymbolChange::Deleted => SymbolChange::Deleted,
            SymbolChange::Modified { signature_changed, old_signature, new_signature, body_changed } =>
                SymbolChange::Modified {
                signature_changed: *signature_changed,
                old_signature: old_signature.clone(),
                new_signature: new_signature.clone(),
                body_changed: *body_changed,
            },
            SymbolChange::Moved { old_file, old_name, signature_changed, body_changed } =>
                SymbolChange::Moved {
                old_file: old_file.clone(),
                old_name: clone_opt(old_name),
                signature_changed: *signature_changed,
                body_changed: *body_changed,
            },
        }
    }
}

impl Clone for SymbolDiffEntry {
    fn clone(&self) -> (r: Self)
        ensures
            r == *self,
    {
        SymbolDiffEntry {
            name: self.name.clone(),
            file: self.file.clone(),
            kind: self.kind,
            change: self.change.clone(),
        }
    }
}


// ---------------------------------------------------------------------------
// Impact / cross-reference structures
// ---------------------------------------------------------------------------

/// A call site of a changed symbol in the base branch.
#[derive(Debug)]
pub struct CallerWithRisk {
    pub file: String,
    pub line: usize,
    pub text: String,
    /// True if this caller's file was also modified in the PR (likely adapted).
    pub also_modified_in_pr: bool,
    /// How many hops away from the changed symbol (1 = direct caller).
    pub depth: usize,
    /// Intermediate symbol name for depth > 1 (the function that calls the changed symbol).
    pub via: Option<String>,
}

impl Clone for CallerWithRisk {
    fn clone(&self) -> (r: Self)
        ensures
            r == *self,
    {
        CallerWithRisk {
            file: self.file.clone(),
            line: self.line,
            text: self.text.clone(),
            also_modified_in_pr: self.also_modified_in_pr,
            depth: self.depth,
            via: clone_opt(&self.via),
        }
    }
}

/// How likely a change is to break its callers.
#[derive(Clone, Copy, Debug, PartialEq, Eq, Structural)]
pub enum RiskLevel {
    High,
    Medium,
    Low,
}

/// The blast radius of one changed symbol.
#[derive(Debug)]
pub struct ImpactResult {
    pub symbol: String,
    pub file: String,
    pub change: SymbolChange,
    pub base_callers: Vec<CallerWithRisk>,
    pub unmodified_callers_count: usize,
    pub tests: Vec<TestWithStatus>,
    pub risk: RiskLevel,
}

/// A test referencing a changed symbol.
#[derive(Debug)]
pub struct TestWithStatus {
    pub name: String,
    pub file: String,
    pub line: usize,
    pub also_modified_in_pr: bool,
}

/// A risky change with callers the PR did not touch.
#[derive(Debug)]
pub struct SafetyIssue {
    pub symbol: String,
    pub file: String,
    pub change: SymbolChange,
    pub unmodified_callers: Vec<CallerWithRisk>,
    pub risk: RiskLevel,
}

/// The issues found among risky changes, and how many were safe.
#[derive(Debug)]
pub struct SafetyReport {
    pub issues: Vec<SafetyIssue>,
    pub safe_changes_count: usize,
}

/// An added or modified symbol that some test references.
#[derive(Debug)]
pub struct CoveredSymbol {
    pub symbol: String,
    pub file: String,
    pub kind: SymbolKind,
    /// Number of distinct test names referencing the symbol.
    pub test_count: usize,
}

/// An added or modified symbol that no test references.
#[derive(Debug)]
pub struct UncoveredSymbol {
    pub symbol: String,
    pub file: String,
    pub kind: SymbolKind,
    pub change: String,
}

/// Test coverage of the added and modified symbols of a review.
#[derive(Debug)]
pub struct TestCoverageReport {
    pub covered: Vec<CoveredSymbol>,
    pub uncovered: Vec<UncoveredSymbol>,
    /// "covered/total".
    pub coverage_ratio: String,
}


/// Why a review query could not be answered.
#[derive(Debug)]
pub enum ReviewQueryError {
    /// The file is not among the changed files of the review.
    FileNotInDiff { file: String },
    /// The symbol is not among the changed symbols of the review.
    SymbolNotInDiff { symbol: String, file: String },
    /// The head version of the file could not be read.
    SourceUnreadable { file: String },
}

} // verus!
