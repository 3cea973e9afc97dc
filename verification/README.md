# coderlm_server

The review engine of a code-navigation server: it compares the base and
head snapshots of a repository symbol by symbol and answers the questions a
pull-request review asks of them (what changed, what might break, what is
untested, what got more complex). The logic is written in Verus and proved
against its contracts.

Layout:

- `src/git.rs` parses `git diff --name-status -M` output.
- `src/model.rs` is the indexed project the review logic reads: files,
  languages and symbols.
- `src/review/` holds the semantic diff (`diff.rs`), per-file context
  bundles and per-symbol diffs (`context.rs`), caller search, safety, impact
  and test coverage (`impact.rs`), stale-reference checks (`references.rs`),
  import diffs (`imports.rs`), change classification (`classification.rs`),
  complexity deltas (`complexity.rs`), the per-review result cache over
  `dashmap::DashMap`s (`cache.rs`), the statuses a review goes through
  while it is created and how it moves to a new head (`lifecycle.rs`), and
  the paths reviews are persisted under (`persistence.rs`).
- `src/state.rs` is the bookkeeping of indexed projects, sessions, reviews
  and cached base indexes, each a `dashmap::DashMap`, with
  least-recently-used eviction.
- `src/tools.rs` and `src/params.rs` are the decisions and parameters of
  the server's review tools, among them the polling of a review being
  created.
- `app/` runs git, creates worktrees, reads symbol sources and persisted
  reviews from disk, and holds the tools' wire formats; its entry point
  restores the persisted reviews of a repository and reports them.
