# doyo_core

The core of Doyo, a desktop task manager: a hierarchy of workspaces, groups,
tasks and notes, with tags, time blocks, focus timers, habits, countdowns,
saved filters, undo, JSON and Markdown transfer, backups and startup recovery.

## Layout

- `src/` is the library, verified with Verus. It holds the rules: where a node
  may live, which nodes a cascading completion, delete, restore or duplicate
  reaches and what lies above a node, how properties are patched, what undo
  and redo write back, how a focus timer counts, how habit streaks and
  summaries are reckoned, how a transfer document is read and its nodes
  placed parents first, which backups are pruned, and how a database is
  judged before it is restored or opened.
  Each public function states its result in its contract; the `law_*` proof
  functions state what holds across calls.
- `src/time.rs`, `src/ids.rs`, `src/paths.rs` and `src/json_text.rs` hold
  the few calls into chrono, uuid, `std::path` and serde_json (stored days,
  instants and JSON text are read there), and `src/text.rs` the call to
  `String::push`, each behind a small function whose contract says what the
  library relies on.
- `tests/` runs the library on concrete values.
- `app/` is the storage around the library: SQLite through rusqlite, the file
  system, the clock, and the floating-point positions, goals and rates. Each
  service reads what the library needs, asks it, and writes back what it
  decided.
