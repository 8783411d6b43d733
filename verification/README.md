# swal_files

The logic of a tabbed, dual-pane file manager with Miller columns, a command
bar, a Git tab, previews and an agent bridge, written in Verus: the functions
under `src/` are verified against their contracts. Where a result rests on
what is on disk or on the clock (the first line syntect reads from a file
whose name and extension it does not know, the current time), the contract
states what holds of every outcome.

- `src/files_core`: file entries and their ordering, scan filters and totals,
  tabs with per-tab history and the dual-pane coordinator, Miller columns,
  fuzzy path matching, watcher event translation, view settings.
- `src/files_git`: porcelain status parsing, unified and side-by-side diffs,
  branch and stash output parsing, commit and stage command planning, and
  repository detection from the contents of `.git`.
- `src/files_app`: key bindings, the command bar (intents, breadcrumbs,
  history), context menus and desktop entries.
- `src/files_agent`: the auto-tagger, the natural-language query parser and
  matcher, the dependency graph and the client's configuration checks.
- `src/files_preview`: hex dumps, image and audio headers, ASCII art,
  thumbnails, and syntax highlighting over syntect.
- `src/text.rs`: the string model shared by the modules.

Calls into outside crates (syntect, dirs, and a few std functions without a
vstd specification) sit behind small trusted wrappers whose doc comments say
what is assumed of them.

`app/` holds what the verifier does not see: file, process and network I/O,
the file watcher, the configuration file, and the computations done in
floating point. `tests/` runs the library against concrete values.
