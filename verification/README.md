# steward_application

The decision logic of a local-first task data centre, verified with Verus.

Tasks have seven business states, versioned with compare-and-swap; sessions,
checkpoints, notes, imports and host hook observations hang off tasks; projects
hold components, source records, profiles and rules. The library holds the
decisions of those writes: each is a function from plain values (the stored task,
session or rule, and the request) to a plan or an error, and states in its contract
exactly what it returns for every input. Reading and writing the database is not
part of this crate; `app/` holds only the filesystem, SQLite-diagnostic and wire
edges that exist so far.

## Layout

- `src/` — the verified library (Verus).
  - `status`, `reference`, `title`, `task_patch`, `task_list`: task states,
    references, the title naming rule, patches and list queries.
  - `sessions`, `hooks`, `rules`, `projects`: session plans, hook event validation
    and deduplication, rule validation and revisions, project limits and profiles.
  - `path_safety`, `permissions`, `host_context`, `host_evidence`: lexical path
    validation, identity comparisons, permission warnings and host evidence
    assessment decisions.
  - `migration`, `doctor`: the checks of offline imports of older databases and
    the health report.
  - `digest`, `text`, `error`, `outcome`: SHA-256 / hex / RFC 3339 through their
    crates, text helpers, the error envelope, and results that carry warnings.
- `tests/` — tests of the library on concrete values.
- `app/` — the filesystem, SQLite-diagnostic and serde edges around the library;
  it does not run the task, session, hook, rule, project or import operations.

Laws of the library are public proof functions named `law_*`.
