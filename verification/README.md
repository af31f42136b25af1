# todo

An htop-style todo list for the terminal: tasks grouped by project (with an
always-present Inbox), a command line, an interactive two-pane interface,
and tmux / Hyprland snippets. Storage is SQLite.

## Layout

- `src/` — the verified library (Verus):
  - `model.rs` — tasks, projects, status and priority tags, input cleaning.
  - `store/` — the in-memory store with its invariant (`mod.rs`, `memory.rs`),
    listing orders (`order.rs`), and laws across operations (`laws.rs`).
    Every mutation is also recorded in a journal of `Change`s.
  - `commands.rs`, `cli.rs` — the command handlers and their dispatch.
  - `tmux.rs`, `hypr.rs` — status line and config snippets.
  - `tui/` — the interface as a state machine over keys (`app.rs`), the text
    layout of rows and panes (`layout.rs`), the stable grouping of tasks by
    project (`grouping.rs`), and laws on undo and wrapping.
  - `text.rs` — character-level helpers and the few calls into std whose
    contracts are trusted (`String::push`, `String::pop`, `{:?}` of a text).
- `app/` — the program around it: argument parsing (clap), the SQLite
  database (rusqlite), which loads rows into the library's store (with the
  system clock's reading, which the store stamps on what it creates) and
  writes back its journal after each command or key, and drawing (ratatui).
  The interface reads the database afresh before each key.
- `tests/` — tests of the library.
