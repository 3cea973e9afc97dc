//! The per-review result cache: the results of the review tools, per file,
//! per symbol and per review. Impact results are cached under
//! `"file::symbol"`; when files change, every entry that names one of them
//! is dropped, and so are the whole-review reports.

use vstd::prelude::*;

use std::sync::Arc;

use dashmap::DashMap;

use super::context::FileContextResult;
use super::{ImpactResult, SafetyReport, TestCoverageReport};
use crate::text::{append_str, chars_of, same_text, string_of};

verus! {

/// `dashmap::DashMap`, a concurrent hash map.
#[verifier::external_type_specification]
#[verifier::external_body]
#[verifier::reject_recursive_types(K)]
#[verifier::reject_recursive_types(V)]
#[verifier::reject_recursive_types(S)]
pub struct ExDashMap<K, V, S>(DashMap<K, V, S>);

/// The entries of a map of texts, each key and value by its characters.
pub uninterp spec fn text_entries(m: DashMap<String, String>) -> Map<Seq<char>, Seq<char>>;

/// `DashMap::new`: a map with no entries.
#[verifier::external_body]
fn text_map_new() -> (r: DashMap<String, String>)
    ensures
        text_entries(r).dom() == Set::<Seq<char>>::empty(),
{
    DashMap::new()
}

/// `DashMap::get`, with the value cloned out: the value stored under a key
/// equal to `key`, if any.
#[verifier::external_body]
fn text_map_get(m: &DashMap<String, String>, key: &str) -> (r: Option<String>)
    ensures
        match r {
            Some(v) => text_entries(*m).contains_key(key@) && text_entries(*m)[key@] == v@,
            None => !text_entries(*m).contains_key(key@),
        },
{
    m.get(key).map(|e| e.value().clone())
}

/// `DashMap::insert`: `value` is stored under `key`, replacing any value
/// stored under an equal key.
#[verifier::external_body]
fn text_map_insert(m: &mut DashMap<String, String>, key: String, value: String)
    ensures
        text_entries(*final(m)) == text_entries(*old(m)).insert(key@, value@),
{
    m.insert(key, value);
}

/// `DashMap::remove`: the entry under a key equal to `key`, if any, is
/// removed.
#[verifier::external_body]
fn text_map_remove(m: &mut DashMap<String, String>, key: &str)
    ensures
        text_entries(*final(m)) == text_entries(*old(m)).remove(key@),
{
    m.remove(key);
}

/// The entries of a map of file context bundles, each key by its characters.
pub uninterp spec fn context_entries(m: DashMap<String, Arc<FileContextResult>>) -> Map<Seq<char>, FileContextResult>;

/// `DashMap::new`: a map of context bundles with no entries.
#[verifier::external_body]
fn context_map_new() -> (r: DashMap<String, Arc<FileContextResult>>)
    ensures
        context_entries(r).dom() == Set::<Seq<char>>::empty(),
{
    DashMap::new()
}

/// `DashMap::get`, with the `Arc` cloned out: the bundle stored under a key
/// equal to `key`, if any.
#[verifier::external_body]
fn context_map_get(m: &DashMap<String, Arc<FileContextResult>>, key: &str) -> (r: Option<Arc<FileContextResult>>)
    ensures
        match r {
            Some(v) => context_entries(*m).contains_key(key@) && context_entries(*m)[key@] == *v,
            None => !context_entries(*m).contains_key(key@),
        },
{
    m.get(key).map(|e| e.value().clone())
}

/// `DashMap::insert`: `value` is stored under `key`, replacing any bundle
/// stored under an equal key.
#[verifier::external_body]
fn context_map_insert(m: &mut DashMap<String, Arc<FileContextResult>>, key: String, value: Arc<FileContextResult>)
    ensures
        context_entries(*final(m)) == context_entries(*old(m)).insert(key@, *value),
{
    m.insert(key, value);
}

/// `DashMap::remove`: the bundle under a key equal to `key`, if any, is
/// removed.
#[verifier::external_body]
fn context_map_remove(m: &mut DashMap<String, Arc<FileContextResult>>, key: &str)
    ensures
        context_entries(*final(m)) == context_entries(*old(m)).remove(key@),
{
    m.remove(key);
}

/// The entries of a map of impact results, each key by its characters.
pub uninterp spec fn impact_entries(m: DashMap<String, Arc<ImpactResult>>) -> Map<Seq<char>, ImpactResult>;

/// `DashMap::new`: a map of impact results with no entries.
#[verifier::external_body]
fn impact_map_new() -> (r: DashMap<String, Arc<ImpactResult>>)
    ensures
        impact_entries(r).dom() == Set::<Seq<char>>::empty(),
{
    DashMap::new()
}

/// `DashMap::get`, with the `Arc` cloned out: the result stored under a key
/// equal to `key`, if any.
#[verifier::external_body]
fn impact_map_get(m: &DashMap<String, Arc<ImpactResult>>, key: &str) -> (r: Option<Arc<ImpactResult>>)
    ensures
        match r {
            Some(v) => impact_entries(*m).contains_key(key@) && impact_entries(*m)[key@] == *v,
            None => !impact_entries(*m).contains_key(key@),
        },
{
    m.get(key).map(|e| e.value().clone())
}

/// `DashMap::insert`: `value` is stored under `key`, replacing any result
/// stored under an equal key.
#[verifier::external_body]
fn impact_map_insert(m: &mut DashMap<String, Arc<ImpactResult>>, key: String, value: Arc<ImpactResult>)
    ensures
        impact_entries(*final(m)) == impact_entries(*old(m)).insert(key@, *value),
{
    m.insert(key, value);
}

/// `DashMap::retain` with `keeps_impact_entry` as the predicate: exactly the
/// entries whose key it accepts stay, with their values.
#[verifier::external_body]
fn impact_map_retain_unchanged_files(m: &mut DashMap<String, Arc<ImpactResult>>, files: &[String])
    ensures
        impact_entries(*final(m)) == impact_entries(*old(m)).restrict(
            Set::new(|k: Seq<char>| !listed(files@, key_file_part_spec(k))),
        ),
{
    m.retain(|k, _| keeps_impact_entry(k, files));
}

/// The separator between the file and the symbol of an impact key.
pub open spec fn key_separator() -> Seq<char> {
    seq![':', ':']
}

/// The cache key of the impact result of `symbol` in `file`.
pub open spec fn impact_key_spec(file: Seq<char>, symbol: Seq<char>) -> Seq<char> {
    file + key_separator() + symbol
}

/// Whether the separator starts at position `i` of `s`.
pub open spec fn separator_at(s: Seq<char>, i: int) -> bool {
    0 <= i && i + 1 < s.len() && s[i] == ':' && s[i + 1] == ':'
}

/// Whether `s` holds the separator.
pub open spec fn has_separator(s: Seq<char>) -> bool {
    exists|i: int| separator_at(s, i)
}

/// The file part of a key: what precedes its first separator, or the whole
/// key when it holds none.
pub open spec fn key_file_part_spec(key: Seq<char>) -> Seq<char> {
    if has_separator(key) {
        let i = choose|i: int| separator_at(key, i) && forall|j: int| 0 <= j < i ==> !separator_at(key, j);
        key.take(i)
    } else {
        key
    }
}

proof fn lemma_first_separator(s: Seq<char>, i: int)
    requires
        separator_at(s, i),
        forall|j: int| 0 <= j < i ==> !#[trigger] separator_at(s, j),
    ensures
        key_file_part_spec(s) == s.take(i),
{
    assert(has_separator(s));
    let c = choose|c: int| separator_at(s, c) && forall|j: int| 0 <= j < c ==> !separator_at(s, j);
    assert(separator_at(s, i) && forall|j: int| 0 <= j < i ==> !separator_at(s, j));
    if c < i {
        assert(!separator_at(s, c));
    } else if c > i {
        assert(!separator_at(s, i));
    }
}

/// Whether some string of `files` is `f`.
pub open spec fn listed(files: Seq<String>, f: Seq<char>) -> bool {
    exists|k: int| 0 <= k < files.len() && (#[trigger] files[k])@ == f
}

/// The key format used for impact results: `file::symbol`.
pub fn impact_key(file: &str, symbol: &str) -> (r: String)
    ensures
        r@ == impact_key_spec(file@, symbol@),
{
    let mut r = String::new();
    append_str(&mut r, file);
    append_str(&mut r, "::");
    append_str(&mut r, symbol);
    proof {
        reveal_strlit("::");
    }
    assert(r@ =~= impact_key_spec(file@, symbol@));
    r
}

/// The file part of a cache key.
pub fn key_file_part(key: &str) -> (r: String)
    ensures
        r@ == key_file_part_spec(key@),
{
    let v = chars_of(key);
    let n = v.len();
    let mut i: usize = 0;
    while i < n && n - i >= 2
        invariant
            v@ == key@,
            n == v@.len(),
            0 <= i <= v@.len(),
            forall|j: int| 0 <= j < i ==> !separator_at(key@, j),
        decreases v@.len() - i,
    {
        if v[i] == ':' && v[i + 1] == ':' {
            proof {
                lemma_first_separator(key@, i as int);
            }
            assert(v@.subrange(0, i as int) =~= key@.take(i as int));
            return string_of(&v, 0, i);
        }
        i += 1;
    }
    assert(!has_separator(key@));
    assert(v@.subrange(0, v@.len() as int) =~= key@);
    string_of(&v, 0, v.len())
}

/// Whether an impact result cached under `key` survives a change of
/// `files`: it does unless its file part is one of them.
pub fn keeps_impact_entry(key: &str, files: &[String]) -> (b: bool)
    ensures
        b == !listed(files@, key_file_part_spec(key@)),
{
    let part = key_file_part(key);
    let mut i: usize = 0;
    while i < files.len()
        invariant
            0 <= i <= files@.len(),
            part@ == key_file_part_spec(key@),
            forall|k: int| 0 <= k < i ==> (#[trigger] files@[k])@ != part@,
        decreases files@.len() - i,
    {
        if same_text(files[i].as_str(), part.as_str()) {
            return false;
        }
        i += 1;
    }
    true
}

/// Whether a file path reads back unchanged from an impact key: it holds
/// no `::` and does not end with `:`.
pub open spec fn key_safe(file: Seq<char>) -> bool {
    !has_separator(file) && (file.len() == 0 || file.last() != ':')
}

/// The file part of the impact key of `symbol` in `file` is `file`, when
/// the file reads back unchanged.
pub proof fn law_impact_key_file_part(file: Seq<char>, symbol: Seq<char>)
    requires
        key_safe(file),
    ensures
        key_file_part_spec(impact_key_spec(file, symbol)) == file,
{
    let key = impact_key_spec(file, symbol);
    let n = file.len() as int;
    assert(key[n] == ':' && key[n + 1] == ':');
    assert forall|j: int| 0 <= j < n implies !#[trigger] separator_at(key, j) by {
        assert(key[j] == file[j]);
        if j + 1 < n {
            assert(key[j + 1] == file[j + 1]);
            if separator_at(key, j) {
                assert(separator_at(file, j));
            }
        } else {
            assert(file.last() == file[j]);
        }
    }
    lemma_first_separator(key, n);
    assert(key.take(n) =~= file);
}

/// An impact result survives a change of `files` exactly when its file is
/// not among them (for files that read back unchanged from a key).
pub proof fn law_invalidation_by_file(file: Seq<char>, symbol: Seq<char>, files: Seq<String>)
    requires
        key_safe(file),
    ensures
        !listed(files, key_file_part_spec(impact_key_spec(file, symbol))) <==> !listed(files, file),
{
    law_impact_key_file_part(file, symbol);
}


// ---------------------------------------------------------------------------
// The cache
// ---------------------------------------------------------------------------

/// Per-review result cache. Reviews are immutable snapshots (base_commit +
/// head_commit are pinned), so cached values only need invalidating when
/// an incremental update moves the head.
pub struct ReviewCache {
    /// Unified diff text per file.
    file_diffs: DashMap<String, String>,
    /// File context bundle per file.
    file_contexts: DashMap<String, Arc<FileContextResult>>,
    /// Safety report (expensive: finds the callers of every risky symbol).
    safety_report: Option<Arc<SafetyReport>>,
    /// Test coverage report (expensive: finds the tests of every changed symbol).
    test_coverage: Option<Arc<TestCoverageReport>>,
    /// Impact result per symbol, under `impact_key(file, symbol)`.
    impact_results: DashMap<String, Arc<ImpactResult>>,
}

pub struct ReviewCacheView {
    pub file_diffs: Map<Seq<char>, Seq<char>>,
    pub file_contexts: Map<Seq<char>, FileContextResult>,
    pub safety_report: Option<SafetyReport>,
    pub test_coverage: Option<TestCoverageReport>,
    pub impact_results: Map<Seq<char>, ImpactResult>,
}

pub open spec fn opt_text(o: Option<String>) -> Option<Seq<char>> {
    match o {
        Some(s) => Some(s@),
        None => None,
    }
}

/// What an optional shared value holds, if anything.
pub open spec fn opt_shared<T>(o: Option<Arc<T>>) -> Option<T> {
    match o {
        Some(a) => Some(*a),
        None => None,
    }
}

/// The looked-up value of `key` in `m`, if any.
pub open spec fn lookup<V>(m: Map<Seq<char>, V>, key: Seq<char>) -> Option<V> {
    if m.contains_key(key) {
        Some(m[key])
    } else {
        None
    }
}

impl View for ReviewCache {
    type V = ReviewCacheView;

    closed spec fn view(&self) -> ReviewCacheView {
        ReviewCacheView {
            file_diffs: text_entries(self.file_diffs),
            file_contexts: context_entries(self.file_contexts),
            safety_report: opt_shared(self.safety_report),
            test_coverage: opt_shared(self.test_coverage),
            impact_results: impact_entries(self.impact_results),
        }
    }
}

fn get_text(m: &DashMap<String, String>, key: &str) -> (r: Option<String>)
    ensures
        opt_text(r) == lookup(text_entries(*m), key@),
{
    text_map_get(m, key)
}

impl ReviewCache {
    /// An empty cache.
    pub fn new() -> (c: Self)
        ensures
            c@.file_diffs == Map::<Seq<char>, Seq<char>>::empty(),
            c@.file_contexts == Map::<Seq<char>, FileContextResult>::empty(),
            c@.safety_report is None,
            c@.test_coverage is None,
            c@.impact_results == Map::<Seq<char>, ImpactResult>::empty(),
    {
        let c = ReviewCache {
            file_diffs: text_map_new(),
            file_contexts: context_map_new(),
            safety_report: None,
            test_coverage: None,
            impact_results: impact_map_new(),
        };
        assert(text_entries(c.file_diffs) =~= Map::<Seq<char>, Seq<char>>::empty());
        assert(context_entries(c.file_contexts) =~= Map::<Seq<char>, FileContextResult>::empty());
        assert(impact_entries(c.impact_results) =~= Map::<Seq<char>, ImpactResult>::empty());
        c
    }

    /// Key format used for impact results.
    pub fn impact_key(file: &str, symbol: &str) -> (r: String)
        ensures
            r@ == impact_key_spec(file@, symbol@),
    {
        impact_key(file, symbol)
    }

    /// The cached unified diff of `file`.
    pub fn file_diff(&self, file: &str) -> (r: Option<String>)
        ensures
            opt_text(r) == lookup(self@.file_diffs, file@),
    {
        get_text(&self.file_diffs, file)
    }

    /// Cache the unified diff of `file`.
    pub fn store_file_diff(&mut self, file: String, diff: String)
        ensures
            final(self)@ == (ReviewCacheView { file_diffs: old(self)@.file_diffs.insert(file@, diff@), ..old(self)@ }),
    {
        text_map_insert(&mut self.file_diffs, file, diff);
    }

    /// The cached context bundle of `file`.
    pub fn file_context(&self, file: &str) -> (r: Option<Arc<FileContextResult>>)
        ensures
            opt_shared(r) == lookup(self@.file_contexts, file@),
    {
        context_map_get(&self.file_contexts, file)
    }

    /// Cache the context bundle of `file`.
    pub fn store_file_context(&mut self, file: String, context: Arc<FileContextResult>)
        ensures
            final(self)@ == (ReviewCacheView {
                file_contexts: old(self)@.file_contexts.insert(file@, *context),
                ..old(self)@
            }),
    {
        context_map_insert(&mut self.file_contexts, file, context);
    }

    /// The cached impact result of `symbol` in `file`.
    pub fn impact_result(&self, file: &str, symbol: &str) -> (r: Option<Arc<ImpactResult>>)
        ensures
            opt_shared(r) == lookup(self@.impact_results, impact_key_spec(file@, symbol@)),
    {
        let key = impact_key(file, symbol);
        impact_map_get(&self.impact_results, key.as_str())
    }

    /// Cache the impact result of `symbol` in `file`.
    pub fn store_impact_result(&mut self, file: &str, symbol: &str, result: Arc<ImpactResult>)
        ensures
            final(self)@ == (ReviewCacheView {
                impact_results: old(self)@.impact_results.insert(impact_key_spec(file@, symbol@), *result),
                ..old(self)@
            }),
    {
        let key = impact_key(file, symbol);
        impact_map_insert(&mut self.impact_results, key, result);
    }

    /// The cached safety report.
    pub fn safety_report(&self) -> (r: Option<Arc<SafetyReport>>)
        ensures
            opt_shared(r) == self@.safety_report,
    {
        match &self.safety_report {
            Some(s) => Some(s.clone()),
            None => None,
        }
    }

    /// Cache the safety report.
    pub fn store_safety_report(&mut self, report: Arc<SafetyReport>)
        ensures
            final(self)@ == (ReviewCacheView { safety_report: Some(*report), ..old(self)@ }),
    {
        self.safety_report = Some(report);
    }

    /// The cached test coverage report.
    pub fn test_coverage(&self) -> (r: Option<Arc<TestCoverageReport>>)
        ensures
            opt_shared(r) == self@.test_coverage,
    {
        match &self.test_coverage {
            Some(s) => Some(s.clone()),
            None => None,
        }
    }

    /// Cache the test coverage report.
    pub fn store_test_coverage(&mut self, report: Arc<TestCoverageReport>)
        ensures
            final(self)@ == (ReviewCacheView { test_coverage: Some(*report), ..old(self)@ }),
    {
        self.test_coverage = Some(report);
    }

    /// Clears cached safety, test coverage, and any impact results for symbols
    /// in the given files, with their diffs and context bundles. Used by an
    /// incremental update to invalidate stale entries.
    pub fn invalidate_files(&mut self, files: &[String])
        ensures
            final(self)@.safety_report is None,
            final(self)@.test_coverage is None,
            final(self)@.file_diffs == old(self)@.file_diffs.remove_keys(files@.map_values(|f: String| f@).to_set()),
            final(self)@.file_contexts == old(self)@.file_contexts.remove_keys(files@.map_values(|f: String| f@).to_set()),
            final(self)@.impact_results == old(self)@.impact_results.restrict(
                Set::new(|k: Seq<char>| !listed(files@, key_file_part_spec(k))),
            ),
    {
        // Clear whole-review reports since they aggregate across all files.
        self.safety_report = None;
        self.test_coverage = None;

        // Remove file-diff and file-context cache entries for affected files.
        let ghost fs = files@.map_values(|f: String| f@);
        let mut i: usize = 0;
        while i < files.len()
            invariant
                0 <= i <= files@.len(),
                fs == files@.map_values(|f: String| f@),
                text_entries(self.file_diffs) == text_entries(old(self).file_diffs).remove_keys(fs.take(i as int).to_set()),
                context_entries(self.file_contexts) == context_entries(old(self).file_contexts).remove_keys(
                    fs.take(i as int).to_set(),
                ),
                impact_entries(self.impact_results) == impact_entries(old(self).impact_results),
                self.safety_report is None,
                self.test_coverage is None,
            decreases files@.len() - i,
        {
            text_map_remove(&mut self.file_diffs, files[i].as_str());
            context_map_remove(&mut self.file_contexts, files[i].as_str());
            proof {
                let a = fs.take(i + 1);
                let b = fs.take(i as int);
                assert forall|x: Seq<char>| a.contains(x) <==> (b.contains(x) || x == fs[i as int]) by {
                    if a.contains(x) {
                        let j = choose|j: int| 0 <= j < a.len() && a[j] == x;
                        if j < i {
                            assert(b[j] == x);
                        }
                    }
                    if b.contains(x) {
                        let j = choose|j: int| 0 <= j < b.len() && b[j] == x;
                        assert(a[j] == x);
                    }
                    if x == fs[i as int] {
                        assert(a[i as int] == x);
                    }
                }
                assert(a.to_set() =~= b.to_set().insert(fs[i as int]));
                assert(text_entries(self.file_diffs) =~= text_entries(old(self).file_diffs).remove_keys(fs.take(i + 1).to_set()));
                assert(context_entries(self.file_contexts) =~= context_entries(old(self).file_contexts).remove_keys(
                    fs.take(i + 1).to_set(),
                ));
            }
            i += 1;
        }
        assert(fs.take(i as int) =~= fs);

        // Remove per-symbol impact results for symbols in affected files.
        impact_map_retain_unchanged_files(&mut self.impact_results, files);
    }
}

/// A read gives back what a write wrote: after the impact result of
/// `symbol` in `file` is stored, looking it up yields it.
pub proof fn law_impact_read_after_write(c: ReviewCacheView, file: Seq<char>, symbol: Seq<char>, result: ImpactResult)
    ensures
        lookup(c.impact_results.insert(impact_key_spec(file, symbol), result), impact_key_spec(file, symbol)) == Some(
            result,
        ),
{
}

/// After the files `files` change, the impact result of a symbol is still
/// cached exactly when it was before and its file is not among them (for
/// files that read back unchanged from a key).
pub proof fn law_invalidation_keeps_other_files(
    c: ReviewCacheView,
    files: Seq<String>,
    file: Seq<char>,
    symbol: Seq<char>,
)
    requires
        key_safe(file),
    ensures
        ({
            let after = c.impact_results.restrict(Set::new(|k: Seq<char>| !listed(files, key_file_part_spec(k))));
            let key = impact_key_spec(file, symbol);
            after.contains_key(key) <==> (c.impact_results.contains_key(key) && !listed(files, file))
        }),
{
    law_impact_key_file_part(file, symbol);
}

} // verus!
