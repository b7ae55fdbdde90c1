# rewind

A per-project shell command history: commands are recorded with their
directory, Git repository and branch, exit status, duration and start time,
and can be searched, filtered, replayed and saved as shortcuts.

## Layout

- `src/` is the library, written and proved with Verus: the history filters
  and the SQL they become, fuzzy ranking, grouping of repeated commands, the
  state machines of the history, search and shortcut views, the managed block
  in shell startup files, the status checks, theme detection from
  environment values, argument handling and the stored record formats. Each
  public function states its result in `ensures`, and the laws that span
  several functions are public proof functions (`lemma_*`).
- `app/` is the `rw` program around it: command-line parsing, the terminal
  interface, the SQLite database, Git lookups, the daemon and other I/O.
- `tests/` runs the library on concrete values.

Calls into chrono and nucleo-matcher, and a few std functions, go through
small trusted wrappers whose doc comments say what is assumed of them.
