# terminal

A registry of terminal sessions, verified with Verus: creating, listing,
renaming, resizing and closing sessions, keeping the latest output of each, and
telling those who listen what happened.

- `src/` is the library. `registry.rs` holds the registry; `model.rs` states what
  a registry is and what each operation does to it; `laws.rs` states what holds
  of it as a whole. `tail.rs`, `listing.rs`, `launch.rs`, `shell.rs`, `paths.rs`,
  `workdir.rs` and `text.rs` hold the rules that it uses; `host.rs` holds what it
  takes from the machine and from outside crates, with what is trusted of each.
- `app/` opens ptys, starts shells, runs the reader threads and sends the events
  to a Tauri application.
- `tests/` runs the library on concrete values.

The registry does no input or output. A request that needs some is planned by
the library, carried out by the application, and its outcome handed back.
