# prioritize

A terminal task manager with priority ordering, notes, tags, search, undo
and staleness tracking, with its core written in Verus.

- `src/` is the verified library: the task lists, filtering, selection,
  reordering, completion, deletion, renaming, tags, notes, the undo history,
  the key bindings and the text shown on screen. Every operation states its
  effect in its contract and returns the database writes it needs. Proof
  functions state what holds across operations: undo takes back each kind
  of step (and several steps newest first, within the kept history), every
  operation keeps the two columns in shape (`column_laws.rs`), and the
  store follows the lists (`store.rs`).
- `app/` is the program around it: the SQLite store (`rusqlite`), the
  terminal (`crossterm`, `ratatui`, `tui-textarea`) and the event loop, which
  performs the writes the library asks for.
- `tests/` exercises the library on concrete values.
