//! The bookkeeping of the server's shared state: which projects are indexed
//! (at most `max_projects`, the least recently used evicted first), which
//! sessions use them, which reviews exist, and which base-commit indexes are
//! kept for reuse (at most `BASE_CACHE_CAPACITY`). Each is a
//! `dashmap::DashMap`, as the server shares them between requests. Indexing,
//! watching and the worktrees themselves live outside this module; times
//! are given to it as timestamps.

use vstd::prelude::*;

use dashmap::DashMap;

use crate::review::clone_opt;
use crate::text::{append_str, same_text};
use crate::tools::{CreateStep, ToolError};

verus! {

/// How many base-commit indexes are kept after their reviews are deleted.
pub const BASE_CACHE_CAPACITY: usize = 3;

/// A client session: the project it works on and the review attached to it.
#[derive(Debug)]
pub struct SessionSlot {
    pub project_path: String,
    pub review_id: Option<String>,
}

impl Clone for SessionSlot {
    fn clone(&self) -> (r: Self)
        ensures
            r == *self,
    {
        SessionSlot { project_path: self.project_path.clone(), review_id: clone_opt(&self.review_id) }
    }
}

/// A review the registry knows: the commit its base was indexed at, and the
/// root of its base project (the worktree of that commit).
#[derive(Debug)]
pub struct ReviewRecord {
    pub base_commit: String,
    pub base_root: String,
}

impl Clone for ReviewRecord {
    fn clone(&self) -> (r: Self)
        ensures
            r == *self,
    {
        ReviewRecord { base_commit: self.base_commit.clone(), base_root: self.base_root.clone() }
    }
}

// ---------------------------------------------------------------------------
// The maps
// ---------------------------------------------------------------------------

/// The entries of a map from names to timestamps, each key by its
/// characters.
pub uninterp spec fn stamp_entries(m: DashMap<String, i64>) -> Map<Seq<char>, i64>;

/// The entries of a map of sessions, each key by its characters.
pub uninterp spec fn session_entries(m: DashMap<String, SessionSlot>) -> Map<Seq<char>, SessionSlot>;

/// The entries of a map of reviews, each key by its characters.
pub uninterp spec fn review_entries(m: DashMap<String, ReviewRecord>) -> Map<Seq<char>, ReviewRecord>;

/// `DashMap::new`: a map with no entries.
#[verifier::external_body]
fn stamp_map_new() -> (r: DashMap<String, i64>)
    ensures
        stamp_entries(r).dom() == Set::<Seq<char>>::empty(),
{
    DashMap::new()
}

/// `DashMap::get`, with the value copied out: the timestamp stored under a
/// key equal to `key`, if any.
#[verifier::external_body]
fn stamp_map_get(m: &DashMap<String, i64>, key: &str) -> (r: Option<i64>)
    ensures
        match r {
            Some(v) => stamp_entries(*m).contains_key(key@) && stamp_entries(*m)[key@] == v,
            None => !stamp_entries(*m).contains_key(key@),
        },
{
    m.get(key).map(|e| *e.value())
}

/// `DashMap::insert`: `value` is stored under `key`, replacing any value
/// stored under an equal key.
#[verifier::external_body]
fn stamp_map_insert(m: &mut DashMap<String, i64>, key: String, value: i64)
    ensures
        stamp_entries(*final(m)) == stamp_entries(*old(m)).insert(key@, value),
{
    m.insert(key, value);
}

/// `DashMap::remove`: the entry under a key equal to `key`, if any, is
/// removed.
#[verifier::external_body]
fn stamp_map_remove(m: &mut DashMap<String, i64>, key: &str)
    ensures
        stamp_entries(*final(m)) == stamp_entries(*old(m)).remove(key@),
{
    m.remove(key);
}

/// `DashMap::len`: the number of entries, of which there are finitely many.
#[verifier::external_body]
fn stamp_map_len(m: &DashMap<String, i64>) -> (r: usize)
    ensures
        r == stamp_entries(*m).dom().len(),
{
    m.len()
}

/// `DashMap::iter`, each entry copied out as a key and its timestamp: every
/// entry comes exactly once, in an order that the map's hashing decides.
#[verifier::external_body]
fn stamp_map_entries(m: &DashMap<String, i64>) -> (r: Vec<(String, i64)>)
    ensures
        forall|i: int|
            0 <= i < r@.len() ==> stamp_entries(*m).contains_key((#[trigger] r@[i]).0@) && stamp_entries(
                *m,
            )[r@[i].0@] == r@[i].1,
        forall|i: int, j: int| 0 <= i < j < r@.len() ==> (#[trigger] r@[i]).0@ != (#[trigger] r@[j]).0@,
        forall|k: Seq<char>| #[trigger]
            stamp_entries(*m).contains_key(k) ==> exists|i: int| 0 <= i < r@.len() && (#[trigger] r@[i]).0@ == k,
{
    m.iter().map(|e| (e.key().clone(), *e.value())).collect()
}

/// `DashMap::new`: a map with no sessions.
#[verifier::external_body]
fn session_map_new() -> (r: DashMap<String, SessionSlot>)
    ensures
        session_entries(r).dom() == Set::<Seq<char>>::empty(),
{
    DashMap::new()
}

/// `DashMap::get`, with the session cloned out: the session stored under a
/// key equal to `key`, if any.
#[verifier::external_body]
fn session_map_get(m: &DashMap<String, SessionSlot>, key: &str) -> (r: Option<SessionSlot>)
    ensures
        match r {
            Some(v) => session_entries(*m).contains_key(key@) && session_entries(*m)[key@] == v,
            None => !session_entries(*m).contains_key(key@),
        },
{
    m.get(key).map(|e| e.value().clone())
}

/// `DashMap::insert`: `value` is stored under `key`, replacing any session
/// stored under an equal key.
#[verifier::external_body]
fn session_map_insert(m: &mut DashMap<String, SessionSlot>, key: String, value: SessionSlot)
    ensures
        session_entries(*final(m)) == session_entries(*old(m)).insert(key@, value),
{
    m.insert(key, value);
}

/// `DashMap::len`: the number of sessions.
#[verifier::external_body]
fn session_map_len(m: &DashMap<String, SessionSlot>) -> (r: usize)
    ensures
        r == session_entries(*m).dom().len(),
{
    m.len()
}

/// `DashMap::retain` with `works_elsewhere` as the predicate: exactly the
/// sessions that do not work on the project at `path` stay.
#[verifier::external_body]
fn session_map_retain_elsewhere(m: &mut DashMap<String, SessionSlot>, path: &str)
    ensures
        session_entries(*final(m)) == sessions_without(session_entries(*old(m)), path@),
{
    m.retain(|_, s| works_elsewhere(s, path));
}

/// `DashMap::new`: a map with no reviews.
#[verifier::external_body]
fn review_map_new() -> (r: DashMap<String, ReviewRecord>)
    ensures
        review_entries(r).dom() == Set::<Seq<char>>::empty(),
{
    DashMap::new()
}

/// `DashMap::get`, with the record cloned out: the review stored under a
/// key equal to `key`, if any.
#[verifier::external_body]
fn review_map_get(m: &DashMap<String, ReviewRecord>, key: &str) -> (r: Option<ReviewRecord>)
    ensures
        match r {
            Some(v) => review_entries(*m).contains_key(key@) && review_entries(*m)[key@] == v,
            None => !review_entries(*m).contains_key(key@),
        },
{
    m.get(key).map(|e| e.value().clone())
}

/// `DashMap::insert`: `value` is stored under `key`, replacing any review
/// stored under an equal key.
#[verifier::external_body]
fn review_map_insert(m: &mut DashMap<String, ReviewRecord>, key: String, value: ReviewRecord)
    ensures
        review_entries(*final(m)) == review_entries(*old(m)).insert(key@, value),
{
    m.insert(key, value);
}

/// `DashMap::remove`: the review under a key equal to `key`, if any, is
/// removed and handed back.
#[verifier::external_body]
fn review_map_remove(m: &mut DashMap<String, ReviewRecord>, key: &str) -> (r: Option<ReviewRecord>)
    ensures
        review_entries(*final(m)) == review_entries(*old(m)).remove(key@),
        match r {
            Some(v) => review_entries(*old(m)).contains_key(key@) && review_entries(*old(m))[key@] == v,
            None => !review_entries(*old(m)).contains_key(key@),
        },
{
    m.remove(key).map(|(_, v)| v)
}

/// `DashMap::len`: the number of reviews.
#[verifier::external_body]
fn review_map_len(m: &DashMap<String, ReviewRecord>) -> (r: usize)
    ensures
        r == review_entries(*m).dom().len(),
{
    m.len()
}

/// Whether the session `s` works on a project other than the one at `path`.
pub fn works_elsewhere(s: &SessionSlot, path: &str) -> (b: bool)
    ensures
        b == (s.project_path@ != path@),
{
    !same_text(s.project_path.as_str(), path)
}

// ---------------------------------------------------------------------------
// The registry
// ---------------------------------------------------------------------------

/// What admitting a project did.
#[derive(Debug)]
pub enum Admission {
    /// The project was already indexed; it was marked as used.
    Existing,
    /// The project is new; `evicted` is the project removed to make room.
    Indexed { evicted: Option<String> },
}

/// The registry of projects (by root, when each was last used), sessions (by
/// id), reviews (by id) and cached base indexes (by commit, when each was
/// last used).
pub struct Registry {
    projects: DashMap<String, i64>,
    sessions: DashMap<String, SessionSlot>,
    reviews: DashMap<String, ReviewRecord>,
    base_cache: DashMap<String, i64>,
    pub max_projects: usize,
}

pub struct RegistryView {
    pub projects: Map<Seq<char>, i64>,
    pub sessions: Map<Seq<char>, SessionSlot>,
    pub reviews: Map<Seq<char>, ReviewRecord>,
    pub base_cache: Map<Seq<char>, i64>,
    pub max_projects: usize,
}

impl View for Registry {
    type V = RegistryView;

    closed spec fn view(&self) -> RegistryView {
        RegistryView {
            projects: stamp_entries(self.projects),
            sessions: session_entries(self.sessions),
            reviews: review_entries(self.reviews),
            base_cache: stamp_entries(self.base_cache),
            max_projects: self.max_projects,
        }
    }
}

// ---------------------------------------------------------------------------
// Specifications
// ---------------------------------------------------------------------------

/// `k` is a key of `m` with the least timestamp.
pub open spec fn is_least_recent(m: Map<Seq<char>, i64>, k: Seq<char>) -> bool {
    &&& m.contains_key(k)
    &&& forall|j: Seq<char>| #[trigger] m.contains_key(j) ==> m[k] <= m[j]
}

/// The sessions of `ss` that do not work on the project at `path`.
pub open spec fn sessions_without(ss: Map<Seq<char>, SessionSlot>, path: Seq<char>) -> Map<Seq<char>, SessionSlot> {
    ss.restrict(Set::new(|id: Seq<char>| ss.contains_key(id) && ss[id].project_path@ != path))
}

/// Finitely many projects and cached base indexes, and at most
/// `BASE_CACHE_CAPACITY` of the latter.
pub open spec fn registry_wf(r: RegistryView) -> bool {
    &&& r.projects.dom().finite()
    &&& r.base_cache.dom().finite()
    &&& r.base_cache.dom().len() <= BASE_CACHE_CAPACITY
}

/// The eviction an admission made: with `evicted == Some(e)`, the least
/// recently used project (rooted at `e`) left the projects and its
/// sessions went with it; with `None`, nothing left.
pub open spec fn admission_evicted(
    old_projects: Map<Seq<char>, i64>,
    old_sessions: Map<Seq<char>, SessionSlot>,
    evicted: Option<String>,
    kept: Map<Seq<char>, i64>,
    sessions: Map<Seq<char>, SessionSlot>,
) -> bool {
    match evicted {
        Some(e) => {
            &&& is_least_recent(old_projects, e@)
            &&& kept == old_projects.remove(e@)
            &&& sessions == sessions_without(old_sessions, e@)
        },
        None => kept == old_projects && sessions == old_sessions,
    }
}

/// The base cache after `commit` is kept as used at `now`: unchanged when
/// it already held `commit`; otherwise `commit` is added, after the least
/// recently used entry made room when the cache was full.
pub open spec fn cache_kept(
    old_cache: Map<Seq<char>, i64>,
    commit: Seq<char>,
    now: i64,
    cache: Map<Seq<char>, i64>,
) -> bool {
    if old_cache.contains_key(commit) {
        cache == old_cache
    } else if old_cache.dom().len() >= BASE_CACHE_CAPACITY {
        exists|k: Seq<char>| #[trigger] is_least_recent(old_cache, k) && cache == old_cache.remove(k).insert(commit, now)
    } else {
        cache == old_cache.insert(commit, now)
    }
}

// ---------------------------------------------------------------------------
// Helpers
// ---------------------------------------------------------------------------

/// A key of `m` with the least timestamp, or `None` when `m` is empty.
fn least_recent_key(m: &DashMap<String, i64>) -> (r: Option<String>)
    ensures
        match r {
            Some(k) => is_least_recent(stamp_entries(*m), k@),
            None => stamp_entries(*m).dom() == Set::<Seq<char>>::empty(),
        },
{
    let entries = stamp_map_entries(m);
    if entries.len() == 0 {
        assert(stamp_entries(*m).dom() =~= Set::<Seq<char>>::empty()) by {
            assert forall|k: Seq<char>| !#[trigger] stamp_entries(*m).dom().contains(k) by {
                if stamp_entries(*m).contains_key(k) {
                    let i = choose|i: int| 0 <= i < entries@.len() && (#[trigger] entries@[i]).0@ == k;
                }
            }
        }
        return None;
    }
    let mut best: usize = 0;
    let mut i: usize = 1;
    while i < entries.len()
        invariant
            0 <= best < entries@.len(),
            1 <= i <= entries@.len(),
            forall|j: int| 0 <= j < i ==> entries@[best as int].1 <= (#[trigger] entries@[j]).1,
        decreases entries@.len() - i,
    {
        if entries[i].1 < entries[best].1 {
            best = i;
        }
        i += 1;
    }
    let k = entries[best].0.clone();
    assert forall|j: Seq<char>| #[trigger] stamp_entries(*m).contains_key(j) implies stamp_entries(*m)[k@]
        <= stamp_entries(*m)[j] by {
        let t = choose|t: int| 0 <= t < entries@.len() && (#[trigger] entries@[t]).0@ == j;
        assert(entries@[t].1 >= entries@[best as int].1);
    }
    Some(k)
}

impl Registry {
    /// An empty registry that indexes at most `max_projects` projects.
    pub fn new(max_projects: usize) -> (r: Self)
        ensures
            registry_wf(r@),
            r@.projects == Map::<Seq<char>, i64>::empty(),
            r@.sessions == Map::<Seq<char>, SessionSlot>::empty(),
            r@.reviews == Map::<Seq<char>, ReviewRecord>::empty(),
            r@.base_cache == Map::<Seq<char>, i64>::empty(),
            r@.max_projects == max_projects,
    {
        let r = Registry {
            projects: stamp_map_new(),
            sessions: session_map_new(),
            reviews: review_map_new(),
            base_cache: stamp_map_new(),
            max_projects,
        };
        assert(r@.projects.dom() =~= Set::<Seq<char>>::empty());
        assert(r@.base_cache.dom() =~= Set::<Seq<char>>::empty());
        r
    }

    /// How many projects are indexed.
    pub fn project_count(&self) -> (n: usize)
        ensures
            n == self@.projects.dom().len(),
    {
        stamp_map_len(&self.projects)
    }

    /// When the project rooted at `root` was last used, if it is indexed.
    pub fn last_active(&self, root: &str) -> (r: Option<i64>)
        ensures
            r == (if self@.projects.contains_key(root@) { Some(self@.projects[root@]) } else { None }),
    {
        stamp_map_get(&self.projects, root)
    }

    /// How many sessions are open.
    pub fn session_count(&self) -> (n: usize)
        ensures
            n == self@.sessions.dom().len(),
    {
        session_map_len(&self.sessions)
    }

    /// The session `id`, if it is open.
    pub fn session(&self, id: &str) -> (r: Option<SessionSlot>)
        ensures
            r == (if self@.sessions.contains_key(id@) { Some(self@.sessions[id@]) } else { None }),
    {
        session_map_get(&self.sessions, id)
    }

    /// How many reviews are registered.
    pub fn review_count(&self) -> (n: usize)
        ensures
            n == self@.reviews.dom().len(),
    {
        review_map_len(&self.reviews)
    }

    /// The review `id`, if it is registered.
    pub fn review(&self, id: &str) -> (r: Option<ReviewRecord>)
        ensures
            r == (if self@.reviews.contains_key(id@) { Some(self@.reviews[id@]) } else { None }),
    {
        review_map_get(&self.reviews, id)
    }

    /// How many base indexes are cached.
    pub fn cached_base_count(&self) -> (n: usize)
        ensures
            n == self@.base_cache.dom().len(),
    {
        stamp_map_len(&self.base_cache)
    }

    /// When the cached base index of `commit` was last used, if there is one.
    pub fn cached_base_used(&self, commit: &str) -> (r: Option<i64>)
        ensures
            r == (if self@.base_cache.contains_key(commit@) { Some(self@.base_cache[commit@]) } else { None }),
    {
        stamp_map_get(&self.base_cache, commit)
    }

    /// Evict the least recently used project, and every session attached to
    /// it. Fails when there is no project.
    pub fn evict_lru(&mut self) -> (r: Result<String, ToolError>)
        requires
            registry_wf(old(self)@),
        ensures
            registry_wf(final(self)@),
            final(self)@.reviews == old(self)@.reviews,
            final(self)@.base_cache == old(self)@.base_cache,
            final(self)@.max_projects == old(self)@.max_projects,
            match r {
                Ok(root) => {
                    &&& is_least_recent(old(self)@.projects, root@)
                    &&& final(self)@.projects == old(self)@.projects.remove(root@)
                    &&& final(self)@.sessions == sessions_without(old(self)@.sessions, root@)
                },
                Err(e) => {
                    &&& old(self)@.projects.dom().len() == 0
                    &&& final(self)@ == old(self)@
                    &&& e matches ToolError::Internal(m) && m@ == "No projects to evict"@
                },
            },
    {
        match least_recent_key(&self.projects) {
            None => Err(ToolError::Internal("No projects to evict".to_string())),
            Some(root) => {
                stamp_map_remove(&mut self.projects, root.as_str());
                session_map_retain_elsewhere(&mut self.sessions, root.as_str());
                Ok(root)
            },
        }
    }

    /// Look up a project or admit a new one. An indexed project is marked
    /// as used at `now`; a new one is added, used at `now`, after evicting
    /// the least recently used project when the registry is at capacity.
    /// Admitting a new project fails when the registry is at capacity with
    /// nothing to evict.
    pub fn admit_project(&mut self, root: &str, now: i64) -> (r: Result<Admission, ToolError>)
        requires
            registry_wf(old(self)@),
        ensures
            registry_wf(final(self)@),
            final(self)@.reviews == old(self)@.reviews,
            final(self)@.base_cache == old(self)@.base_cache,
            final(self)@.max_projects == old(self)@.max_projects,
            if old(self)@.projects.contains_key(root@) {
                &&& r matches Ok(Admission::Existing)
                &&& final(self)@.projects == old(self)@.projects.insert(root@, now)
                &&& final(self)@.sessions == old(self)@.sessions
            } else if old(self)@.projects.dom().len() >= old(self)@.max_projects && old(self)@.projects.dom().len()
                == 0 {
                &&& final(self)@ == old(self)@
                &&& r matches Err(ToolError::Internal(m)) && m@ == "No projects to evict"@
            } else {
                &&& r matches Ok(Admission::Indexed { evicted }) && {
                    &&& (evicted is Some <==> old(self)@.projects.dom().len() >= old(self)@.max_projects)
                    &&& admission_evicted(
                        old(self)@.projects,
                        old(self)@.sessions,
                        evicted,
                        final(self)@.projects.remove(root@),
                        final(self)@.sessions,
                    )
                }
                &&& final(self)@.projects.contains_key(root@)
                &&& final(self)@.projects[root@] == now
            },
    {
        if stamp_map_get(&self.projects, root).is_some() {
            stamp_map_insert(&mut self.projects, root.to_owned(), now);
            return Ok(Admission::Existing);
        }
        let n = stamp_map_len(&self.projects);
        let evicted = if n >= self.max_projects {
            match self.evict_lru() {
                Ok(e) => Some(e),
                Err(e) => return Err(e),
            }
        } else {
            None
        };
        let ghost kept = self@.projects;
        stamp_map_insert(&mut self.projects, root.to_owned(), now);
        assert(self@.projects.remove(root@) =~= kept);
        Ok(Admission::Indexed { evicted })
    }

    /// Register the project rooted at `root` as used at `now` without
    /// looking at capacity: a base snapshot restored from the base cache is
    /// added this way, since it needs no indexing.
    pub fn insert_project(&mut self, root: &str, now: i64)
        requires
            registry_wf(old(self)@),
        ensures
            registry_wf(final(self)@),
            final(self)@ == (RegistryView { projects: old(self)@.projects.insert(root@, now), ..old(self)@ }),
    {
        stamp_map_insert(&mut self.projects, root.to_owned(), now);
    }

    /// Mark the project rooted at `root`, if indexed, as used at `now`.
    pub fn touch_project(&mut self, root: &str, now: i64)
        requires
            registry_wf(old(self)@),
        ensures
            registry_wf(final(self)@),
            final(self)@ == (RegistryView {
                projects: if old(self)@.projects.contains_key(root@) {
                    old(self)@.projects.insert(root@, now)
                } else {
                    old(self)@.projects
                },
                ..old(self)@
            }),
    {
        if stamp_map_get(&self.projects, root).is_some() {
            stamp_map_insert(&mut self.projects, root.to_owned(), now);
        }
    }

    /// Open a session `id` on the project at `project_path`, with no review
    /// attached; a session already open under `id` is replaced.
    pub fn add_session(&mut self, id: &str, project_path: &str)
        requires
            registry_wf(old(self)@),
        ensures
            registry_wf(final(self)@),
            final(self)@ == (RegistryView {
                sessions: old(self)@.sessions.insert(id@, final(self)@.sessions[id@]),
                ..old(self)@
            }),
            final(self)@.sessions[id@].project_path@ == project_path@,
            final(self)@.sessions[id@].review_id is None,
    {
        session_map_insert(&mut self.sessions, id.to_owned(), SessionSlot { project_path: project_path.to_owned(), review_id: None });
    }

    /// Attach `review_id` to session `session_id` (or detach with `None`);
    /// nothing happens for an unknown session.
    pub fn attach_review(&mut self, session_id: &str, review_id: Option<String>)
        requires
            registry_wf(old(self)@),
        ensures
            registry_wf(final(self)@),
            final(self)@ == (RegistryView {
                sessions: if old(self)@.sessions.contains_key(session_id@) {
                    old(self)@.sessions.insert(
                        session_id@,
                        SessionSlot { project_path: old(self)@.sessions[session_id@].project_path, review_id },
                    )
                } else {
                    old(self)@.sessions
                },
                ..old(self)@
            }),
    {
        if let Some(s) = session_map_get(&self.sessions, session_id) {
            session_map_insert(&mut self.sessions, session_id.to_owned(), SessionSlot { project_path: s.project_path, review_id });
        }
    }

    /// Settle a review that `create_review` waited for, by the step its last
    /// poll decided: a ready review becomes the one attached to session
    /// `session_id`; a failure is reported with its message and changes
    /// nothing.
    pub fn settle_created_review(&mut self, session_id: &str, review_id: &str, step: CreateStep) -> (r: Result<
        (),
        String,
    >)
        requires
            registry_wf(old(self)@),
            !(step is Wait),
        ensures
            registry_wf(final(self)@),
            step is Fail ==> (r matches Err(e) && e@ == step->Fail_0@) && final(self)@ == old(self)@,
            step is Attach ==> {
                &&& r is Ok
                &&& final(self)@.projects == old(self)@.projects
                &&& final(self)@.reviews == old(self)@.reviews
                &&& final(self)@.base_cache == old(self)@.base_cache
                &&& if old(self)@.sessions.contains_key(session_id@) {
                    &&& final(self)@.sessions.dom() == old(self)@.sessions.dom()
                    &&& final(self)@.sessions[session_id@].project_path == old(self)@.sessions[session_id@].project_path
                    &&& (final(self)@.sessions[session_id@].review_id matches Some(id) && id@ == review_id@)
                    &&& forall|k: Seq<char>|
                        #[trigger] old(self)@.sessions.contains_key(k) && k != session_id@ ==> final(self)@.sessions[k]
                            == old(self)@.sessions[k]
                } else {
                    final(self)@.sessions == old(self)@.sessions
                }
            },
    {
        match step {
            CreateStep::Fail(m) => Err(m),
            _ => {
                let id = review_id.to_owned();
                self.attach_review(session_id, Some(id));
                Ok(())
            },
        }
    }

    /// The root of the project of session `session_id`: an unknown session
    /// is not found; a project no longer indexed is gone.
    pub fn get_project_for_session(&self, session_id: &str) -> (r: Result<String, ToolError>)
        ensures
            ({
                let ss = self@.sessions;
                match r {
                    Ok(root) => ss.contains_key(session_id@) && root@ == ss[session_id@].project_path@
                        && self@.projects.contains_key(root@),
                    Err(ToolError::NotFound(m)) => !ss.contains_key(session_id@) && m@ == "Session '"@ + session_id@
                        + "' not found"@,
                    Err(ToolError::Gone(m)) => ss.contains_key(session_id@) && !self@.projects.contains_key(
                        ss[session_id@].project_path@,
                    ) && m@ == "Project at '"@ + ss[session_id@].project_path@
                        + "' was evicted due to capacity limits. Start a new session to re-index, or increase --max-projects."@,
                    Err(_) => false,
                }
            }),
    {
        let s = match session_map_get(&self.sessions, session_id) {
            Some(s) => s,
            None => {
                let mut m = "Session '".to_string();
                append_str(&mut m, session_id);
                append_str(&mut m, "' not found");
                return Err(ToolError::NotFound(m));
            },
        };
        if stamp_map_get(&self.projects, s.project_path.as_str()).is_some() {
            Ok(s.project_path)
        } else {
            let mut m = "Project at '".to_string();
            append_str(&mut m, s.project_path.as_str());
            append_str(
                &mut m,
                "' was evicted due to capacity limits. Start a new session to re-index, or increase --max-projects.",
            );
            Err(ToolError::Gone(m))
        }
    }

    /// The review attached to session `session_id`; a review must be attached
    /// before the review queries can use it. An unknown session is
    /// not found; a session without a review is a bad request; a deleted
    /// review is gone.
    pub fn get_review_for_session(&self, session_id: &str) -> (r: Result<String, ToolError>)
        ensures
            ({
                let ss = self@.sessions;
                match r {
                    Ok(id) => ss.contains_key(session_id@) && (ss[session_id@].review_id matches Some(a) && a@ == id@)
                        && self@.reviews.contains_key(id@),
                    Err(ToolError::NotFound(m)) => !ss.contains_key(session_id@) && m@ == "Session '"@ + session_id@
                        + "' not found"@,
                    Err(ToolError::BadRequest(m)) => ss.contains_key(session_id@) && ss[session_id@].review_id is None
                        && m@ == "No review attached to this session. Use POST /reviews/{id}/attach first."@,
                    Err(ToolError::Gone(m)) => ss.contains_key(session_id@) && (ss[session_id@].review_id matches Some(
                        id,
                    ) && !self@.reviews.contains_key(id@)) && m@
                        == "The review was deleted. Create a new one with POST /reviews."@,
                    Err(_) => false,
                }
            }),
    {
        let s = match session_map_get(&self.sessions, session_id) {
            Some(s) => s,
            None => {
                let mut m = "Session '".to_string();
                append_str(&mut m, session_id);
                append_str(&mut m, "' not found");
                return Err(ToolError::NotFound(m));
            },
        };
        let id = match s.review_id {
            Some(id) => id,
            None => {
                return Err(
                    ToolError::BadRequest(
                        "No review attached to this session. Use POST /reviews/{id}/attach first.".to_string(),
                    ),
                )
            },
        };
        if review_map_get(&self.reviews, id.as_str()).is_some() {
            Ok(id)
        } else {
            Err(ToolError::Gone("The review was deleted. Create a new one with POST /reviews.".to_string()))
        }
    }

    /// Register the review `id`, whose base was indexed at `base_commit`
    /// into the project rooted at `base_root`; a review already registered
    /// under `id` is replaced.
    pub fn add_review(&mut self, id: &str, base_commit: &str, base_root: &str)
        requires
            registry_wf(old(self)@),
        ensures
            registry_wf(final(self)@),
            final(self)@ == (RegistryView {
                reviews: old(self)@.reviews.insert(id@, final(self)@.reviews[id@]),
                ..old(self)@
            }),
            final(self)@.reviews[id@].base_commit@ == base_commit@,
            final(self)@.reviews[id@].base_root@ == base_root@,
    {
        review_map_insert(
            &mut self.reviews,
            id.to_owned(),
            ReviewRecord { base_commit: base_commit.to_owned(), base_root: base_root.to_owned() },
        );
    }

    /// Mark the cached base index of `commit`, if there is one, as used at
    /// `now`; true when there is one.
    pub fn use_cached_base(&mut self, commit: &str, now: i64) -> (found: bool)
        requires
            registry_wf(old(self)@),
        ensures
            registry_wf(final(self)@),
            found == old(self)@.base_cache.contains_key(commit@),
            final(self)@ == (RegistryView {
                base_cache: if found {
                    old(self)@.base_cache.insert(commit@, now)
                } else {
                    old(self)@.base_cache
                },
                ..old(self)@
            }),
    {
        if stamp_map_get(&self.base_cache, commit).is_some() {
            stamp_map_insert(&mut self.base_cache, commit.to_owned(), now);
            assert(self@.base_cache.dom() =~= old(self)@.base_cache.dom());
            true
        } else {
            false
        }
    }

    /// Keep the base index of `commit` for reuse, used at `now`, unless it
    /// is kept already; when the cache is full, the least recently used
    /// entry makes room.
    pub fn cache_base(&mut self, commit: &str, now: i64)
        requires
            registry_wf(old(self)@),
        ensures
            registry_wf(final(self)@),
            cache_kept(old(self)@.base_cache, commit@, now, final(self)@.base_cache),
            final(self)@ == (RegistryView { base_cache: final(self)@.base_cache, ..old(self)@ }),
    {
        if stamp_map_get(&self.base_cache, commit).is_some() {
            return;
        }
        let n = stamp_map_len(&self.base_cache);
        if n >= BASE_CACHE_CAPACITY {
            match least_recent_key(&self.base_cache) {
                Some(k) => {
                    stamp_map_remove(&mut self.base_cache, k.as_str());
                    stamp_map_insert(&mut self.base_cache, commit.to_owned(), now);
                    assert(is_least_recent(old(self)@.base_cache, k@));
                    assert(old(self)@.base_cache.remove(k@).dom() =~= old(self)@.base_cache.dom().remove(k@));
                    assert(self@.base_cache.dom() =~= old(self)@.base_cache.dom().remove(k@).insert(commit@));
                },
                None => {
                    assert(old(self)@.base_cache.dom().len() == 0);
                },
            }
        } else {
            stamp_map_insert(&mut self.base_cache, commit.to_owned(), now);
            assert(self@.base_cache.dom() =~= old(self)@.base_cache.dom().insert(commit@));
        }
    }

    /// Forget the project rooted at `root` and every session on it.
    pub fn forget_project(&mut self, root: &str)
        requires
            registry_wf(old(self)@),
        ensures
            registry_wf(final(self)@),
            final(self)@ == (RegistryView {
                projects: old(self)@.projects.remove(root@),
                sessions: sessions_without(old(self)@.sessions, root@),
                ..old(self)@
            }),
    {
        stamp_map_remove(&mut self.projects, root);
        assert(self@.projects.dom() =~= old(self)@.projects.dom().remove(root@));
        session_map_retain_elsewhere(&mut self.sessions, root);
    }

    /// Remove the review `review_id`: the index of its base commit is kept
    /// for reuse, used at `now`, and its base project is forgotten with its
    /// sessions; every other project stays. An unknown review is not
    /// found, and nothing changes.
    pub fn delete_review(&mut self, review_id: &str, now: i64) -> (r: Result<(), ToolError>)
        requires
            registry_wf(old(self)@),
        ensures
            registry_wf(final(self)@),
            final(self)@.max_projects == old(self)@.max_projects,
            match r {
                Ok(()) => {
                    let rec = old(self)@.reviews[review_id@];
                    &&& old(self)@.reviews.contains_key(review_id@)
                    &&& final(self)@.reviews == old(self)@.reviews.remove(review_id@)
                    &&& cache_kept(old(self)@.base_cache, rec.base_commit@, now, final(self)@.base_cache)
                    &&& final(self)@.projects == old(self)@.projects.remove(rec.base_root@)
                    &&& final(self)@.sessions == sessions_without(old(self)@.sessions, rec.base_root@)
                },
                Err(e) => {
                    &&& !old(self)@.reviews.contains_key(review_id@)
                    &&& final(self)@ == old(self)@
                    &&& e matches ToolError::NotFound(m) && m@ == "Review '"@ + review_id@ + "' not found"@
                },
            },
    {
        let rec = match review_map_remove(&mut self.reviews, review_id) {
            Some(rec) => rec,
            None => {
                assert(self@.reviews =~= old(self)@.reviews);
                let mut m = "Review '".to_string();
                append_str(&mut m, review_id);
                append_str(&mut m, "' not found");
                return Err(ToolError::NotFound(m));
            },
        };
        self.cache_base(rec.base_commit.as_str(), now);
        self.forget_project(rec.base_root.as_str());
        Ok(())
    }
}

} // verus!
