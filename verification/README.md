# vmn

`vmn` keeps a registry of Python virtual environments: it creates them,
finds them under project folders, resolves selectors to them, activates
them, and marks, removes and prunes their records.

The logic of the tool is a library verified with Verus; the program around
it is ordinary Rust.

## Layout

- `src/` is the verified library.
  - `registry.rs`: the registry of environments and package snapshots, its
    invariant (unique ids, unique paths, one row per package name in a snapshot,
    no snapshot without its environment) and every operation on it.
  - `ops.rs`: the decisions of the commands: what `create` does at its
    target, registering a created or scanned venv, activation, refresh,
    removal, and `doctor`'s path checks, tally and verdict.
  - `laws.rs`: properties that span several operations, stated and proved.
  - `model.rs`, `listing.rs`, `order.rs`: records, their orders, and a
    verified insertion sort.
  - `paths.rs`, `python.rs`, `cli.rs`, `output.rs`, `errors.rs`, `text.rs`:
    path handling, Python interpreter selection and version keys, argument
    rules, everything the commands print, and text helpers.
  - `clock.rs`: the current time (std and chrono; a clock before 1970 is
    an error, not a panic) and fresh ULIDs (ulid).
- `app/` is the program: argument parsing (clap), the SQLite store
  (rusqlite; a save writes only the rows the run changed), the file system walk (walkdir), processes, JSON (serde), and
  the terminal.
- `tests/` runs the library on concrete cases.
