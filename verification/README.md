# tally

A shared ledger of todos, scratchpads and comments for a person and their
coding agents, kept per project, with a command line, an MCP server over
stdio and terminal panes on top of one store.

The library under `src/` is written in Verus: every operation carries a
contract over a mathematical model of the store, and the properties that
span operations are proved as laws.

- `todos.rs`, `scratchpads.rs`, `comments.rs`, `project.rs` — the store's
  data and operations (create, read, update with guards, delete with
  cascades, listing with filters, sorting and paging).
- `sync.rs` — what one GitHub sync pass decides for a todo.
- `cli.rs` — the flag grammar and the markdown renderings the command
  line prints.
- `commands.rs` — the `todos`, `scratchpads` and `comments` subcommands:
  from a subcommand and its flags to one store call, with the flags'
  defaults and the command line's refusals (a missing expected revision,
  `delete` without `--confirm`, an unknown subcommand).
- `mcp.rs` — the MCP tools: arguments in, store calls, results out.
- `plans.rs` — plan-path configuration and which walked files are plans.
- `nav.rs`, `panes.rs`, `tui.rs`, `markdown.rs` — the terminal panes:
  navigation, what every key and click does, row texts and click geometry.
- `clock.rs`, `num.rs`, `text.rs`, `order.rs`, `ids.rs`, `errors.rs` —
  calendar arithmetic and timestamps, numbers, text, stable sorting, ids.
- `laws.rs` — properties spanning operations.

`app/` holds the program around the library: argument dispatch, reading
and writing the store's files, the JSON-RPC loop, the `gh` calls of the
sync, and the ratatui drawing of the panes. `tests/` exercises the library.

## Storage

The store is kept as plain files under the per-project state directory:
`todos.json` and `comments.json` as whole-file JSON, and one markdown file
per scratchpad under `scratchpads/`. An earlier layout kept each project as
a per-machine automerge document that several machines could merge, and
migrated the JSON files into it on first open. That document store and its
migration are not part of this crate (automerge and autosurgeon are not
among its dependencies): the JSON and markdown files are the store, read
and written whole, under a lock held for one command, tool call or pane
event.
