# zellaude

A zellij status-bar plugin that shows agent sessions and names tabs after the titles
of their panes. The decisions are a verified library; the plugin around it is plain
Rust.

- `src/` is the library. Events and pipe messages come in as plain values, and go out
  as a list of actions for the host. `model.rs` says what each event does to the state,
  `state.rs` does it, and `laws.rs` and `rename_laws.rs` say what holds over any event
  or over many.
- `app/` turns the host's events into the library's, and its actions into host calls.
- `tests/` runs the library.
