# cat_repo_auditor

Audits an owner's GitHub repositories together with their local clones:
open issues and pull requests, the state of each clone (clean, modified,
behind the upstream, in conflict), the presence of the README translation,
Pages, DeepWiki links and the expected workflow callers, and whether the
applications installed with `cargo install --git` are up to date.

## Layout

- `src/` — the library, verified with Verus.
  - `app*.rs`, `rows.rs`: the repository list, its navigation, search,
    detail pane, the overlay of stale installs and the hash polling.
  - `fetch.rs`, `fetch_run.rs`: the paged GraphQL listing, the record made
    for each repository, the cache check and the display order.
  - `git_status.rs`, `git_ops.rs`: reading and pulling local clones through
    a `git` runner handed in by the caller.
  - `cargo_*.rs`, `bin_check.rs`, `json.rs`: the `cargo install` metadata,
    checkout directories, installed binaries' own reports and the verdicts.
  - `workflows.rs`, `phase3.rs`, `pipeline.rs`, `history.rs`: the
    per-repository checks, the pipeline's decisions and the cached history.
  - `order.rs`, `text.rs`, `types.rs`: orderings, text helpers, shared types.
- `app/` — the `catrepo` command: configuration and history files, the
  `git`/`gh` processes, worker threads, and printing.
- `tests/` — tests of the library, with fake runners in place of processes.
