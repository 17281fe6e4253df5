# Session monitor

Shows at a glance every coding session that runs across Zellij sessions, whether
it is idle, working or waiting for input, and jumps to its pane.

- `src/` is the verified library.
  - `event`, `registry`, `server`: what hook events mean, which sessions are
    tracked, and what the server does about a report or a request for the state.
    `server_laws` states what holds of them together.
  - `json`, `headers`, `clock`: bodies, headers and time, over `serde_json`,
    `axum` and std.
  - `config`: port, sound and log settings.
  - `plugin`: which sessions to show (`panes`), how a row looks (`row`, `paint`),
    and how the plugin reacts to events and keys (`state`); `plugin::laws` states
    what holds of it as a whole.
  - `text`: order of texts, decimal numbers, padding.
- `app/` is the HTTP server and the Zellij plugin around the library. `Cargo.toml`
  is the server's; the WebAssembly build of the plugin needs one without `tokio`
  and with `axum` without its default features.
- `tests/` runs the library against the real crates.

The server listens on `127.0.0.1:47100` unless `--port` or `CLAUDE_MONITOR_PORT`
says otherwise. `CLAUDE_MONITOR_SOUND` is a shell command to run when a session
goes from working to idle or waiting. `--log` or `CLAUDE_MONITOR_LOG` logs each
report to stdout.
