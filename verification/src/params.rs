//! The parameters of the server's tools, as clients send them.

use vstd::prelude::*;

verus! {

#[derive(Debug)]
pub struct GetStructureParams {
    /// Maximum depth of the file tree (0 = unlimited)
    pub depth: Option<usize>,
}

#[derive(Debug)]
pub struct DefineFileParams {
    /// Relative path of the file to annotate
    pub file: String,
    /// Human-readable description of the file's purpose
    pub definition: String,
}

#[derive(Debug)]
pub struct MarkFileParams {
    /// Relative path of the file to mark
    pub file: String,
    /// Semantic tag: documentation, ignore, test, config, generated, or custom:<name>
    pub mark: String,
}

#[derive(Debug)]
pub struct ListSymbolsParams {
    /// Filter by symbol kind: function, method, class, struct, enum, trait, interface, constant, variable, type, module, import, other
    pub kind: Option<String>,
    /// Filter to symbols defined in this file (relative path)
    pub file: Option<String>,
    /// Maximum number of results (default 100)
    pub limit: Option<usize>,
    /// Use 'base' to query the base branch of the active review instead of head
    pub branch: Option<String>,
}

#[derive(Debug)]
pub struct SearchSymbolsParams {
    /// Case-insensitive substring to search for in symbol names
    pub query: String,
    /// Maximum number of results (default 20)
    pub limit: Option<usize>,
}

#[derive(Debug)]
pub struct GetImplementationParams {
    /// Symbol name
    pub symbol: String,
    /// File containing the symbol (relative path)
    pub file: String,
    /// Use 'base' to get the implementation from the base branch of the active review
    pub branch: Option<String>,
}

#[derive(Debug)]
pub struct SymbolRef {
    /// Symbol name
    pub symbol: String,
    /// File containing the symbol (relative path)
    pub file: String,
}

#[derive(Debug)]
pub struct BatchImplementationsParams {
    /// List of symbol+file pairs to fetch implementations for
    pub symbols: Vec<SymbolRef>,
    /// Use 'base' to query the base branch of the active review
    pub branch: Option<String>,
}

#[derive(Debug)]
pub struct FindTestsParams {
    /// Symbol name to find tests for
    pub symbol: String,
    /// File containing the symbol (relative path)
    pub file: String,
    /// Maximum number of results (default 20)
    pub limit: Option<usize>,
    /// Use 'base' to query the base branch of the active review
    pub branch: Option<String>,
}

#[derive(Debug)]
pub struct FindCallersParams {
    /// Symbol name to find call sites for
    pub symbol: String,
    /// File containing the symbol (relative path)
    pub file: String,
    /// Maximum number of results (default 50)
    pub limit: Option<usize>,
    /// Use 'base' to query the base branch of the active review
    pub branch: Option<String>,
}

#[derive(Debug)]
pub struct ListVariablesParams {
    /// Function name to list local variables for
    pub function: String,
    /// File containing the function (relative path)
    pub file: String,
}

#[derive(Debug)]
pub struct DefineSymbolParams {
    /// Symbol name
    pub symbol: String,
    /// File containing the symbol (relative path)
    pub file: String,
    /// Human-readable description of the symbol's purpose
    pub definition: String,
}

#[derive(Debug)]
pub struct PeekParams {
    /// File to read (relative path)
    pub file: String,
    /// First line to read, 0-indexed (default 0)
    pub start: Option<usize>,
    /// Last line to read, exclusive (default 100)
    pub end: Option<usize>,
}

#[derive(Debug)]
pub struct GrepParams {
    /// Regex pattern to search for
    pub pattern: String,
    /// Maximum number of matches to return (default 50)
    pub max_matches: Option<usize>,
    /// Lines of context around each match (default 2)
    pub context_lines: Option<usize>,
    /// Search scope: 'all' (default) or 'code' to skip comments and string literals
    pub scope: Option<String>,
}

#[derive(Debug)]
pub struct ChunkIndicesParams {
    /// File to chunk (relative path)
    pub file: String,
    /// Target chunk size in bytes (default 5000)
    pub size: Option<usize>,
    /// Overlap between consecutive chunks in bytes (default 200)
    pub overlap: Option<usize>,
}

#[derive(Debug)]
pub struct GetHistoryParams {
    /// Maximum number of recent entries to return (default 50)
    pub limit: Option<usize>,
}

#[derive(Debug)]
pub struct CreateReviewParams {
    /// Git ref for the base branch (e.g. 'main', 'HEAD~1', a commit SHA)
    pub base_ref: String,
    /// Git ref for the head branch (default 'HEAD')
    pub head_ref: Option<String>,
}

#[derive(Debug)]
pub struct ReviewIdParams {
    /// Review ID returned by create_review or list_reviews
    pub review_id: String,
}

#[derive(Debug)]
pub struct ReviewSymbolsParams {
    /// Filter by change type: added, deleted, modified
    pub change: Option<String>,
    /// Filter to symbols in this file (relative path)
    pub file: Option<String>,
    /// Filter by symbol kind: function, method, class, struct, etc.
    pub kind: Option<String>,
}

#[derive(Debug)]
pub struct ReviewFileDiffParams {
    /// File to get the unified diff for (relative path)
    pub file: String,
}

#[derive(Debug)]
pub struct ReviewFileContextParams {
    /// File to get context for (relative path)
    pub file: String,
    /// Lines of context around changed hunks (default 50)
    pub context_lines: Option<usize>,
    /// Maximum lines before switching to windowed excerpts (default 500)
    pub max_full_file_lines: Option<usize>,
}

#[derive(Debug)]
pub struct ReviewSymbolDiffParams {
    /// Symbol name
    pub symbol: String,
    /// File containing the symbol (relative path)
    pub file: String,
}

#[derive(Debug)]
pub struct ReviewSafetyParams {
    /// Caller chain depth to traverse (1-3, default 1)
    pub depth: Option<usize>,
}

#[derive(Debug)]
pub struct ReviewImpactParams {
    /// Symbol name to analyze impact for
    pub symbol: String,
    /// File containing the symbol (relative path)
    pub file: String,
    /// Caller chain depth to traverse (1-3, default 1)
    pub depth: Option<usize>,
}

#[derive(Debug)]
pub struct ReviewReferenceCheckParams {
    /// Symbol name to check for stale references
    pub symbol: String,
    /// File containing the symbol (relative path)
    pub file: String,
}

#[derive(Debug)]
pub struct ReviewImportDiffParams {
    /// Limit to a specific file (relative path). Omit for all changed files.
    pub file: Option<String>,
}

#[derive(Debug)]
pub struct ReviewComplexityParams {
    /// Limit to a specific file (relative path). Omit for all changed files.
    pub file: Option<String>,
}

impl CreateReviewParams {
    /// The head ref to review: `HEAD` unless one is given.
    pub fn head_ref_or_default(&self) -> (r: String)
        ensures
            r@ == match self.head_ref {
                Some(h) => h@,
                None => "HEAD"@,
            },
    {
        match &self.head_ref {
            Some(h) => h.clone(),
            None => "HEAD".to_string(),
        }
    }
}

impl ReviewFileContextParams {
    /// Lines of context around changed hunks: 50 unless given.
    pub fn context_lines_or_default(&self) -> (r: usize)
        ensures
            r == match self.context_lines {
                Some(n) => n,
                None => 50,
            },
    {
        match self.context_lines {
            Some(n) => n,
            None => 50,
        }
    }

    /// Lines up to which a whole file is shown: 500 unless given.
    pub fn max_full_file_lines_or_default(&self) -> (r: usize)
        ensures
            r == match self.max_full_file_lines {
                Some(n) => n,
                None => 500,
            },
    {
        match self.max_full_file_lines {
            Some(n) => n,
            None => 500,
        }
    }
}

} // verus!
