# nezha_cyber

A terminal assistant for red-team work, driven by the DeepSeek chat API,
built in the Elm architecture: every event becomes an `Action`, a pure
`update` changes the `App`, and the screen is drawn from the state.

The library in `src/` is verified with Verus. It holds the state machine and
its laws, the decoding of the server-sent event stream, the keyboard
handling, the text of every screen area, the themes and the layout, the
`@file` reference syntax, and the sandbox and report rules of the local file
tools.

- `src/app.rs` — `App`, `Tab`, `update`, its specification per action, and
  the laws that relate several steps.
- `src/api/` — message types, client settings, stream decoding, and the
  step function that decides what a streamed request reports.
- `src/input.rs` — key events to actions and input edits.
- `src/ui/` — themes, layout, and the lines each area shows.
- `src/tools/` — path arithmetic, the sandbox decision, tool reports, file
  references and extraction rules.
- `src/persistence/` — the meaning of stored rows and preferences.
- `src/text.rs` — character-level string functions with exact
  specifications.

`app/` is the program: terminal I/O with crossterm and ratatui, HTTP with
reqwest on tokio, SQLite with rusqlite, configuration files with serde, and
the floating-point cost display.

Where the program must do outside work in the middle of a decision, the
library leaves the request in the state or returns it, and the program
reports the outcome as the next action: the palette commands `/save`,
`/load <id>` and `/history` leave a `StoreRequest` for SQLite; a tool call
the model asks for waits in `App::confirmations` until the user answers Y or
N; each event of a streamed request goes through `stream_step`.

The file tools' sandbox decides on the canonical form of the longest part
of a target that exists, and refuses a target whose parts still to be
created climb with `..`; the program finds that part on disk. The event
stream is read by pieces with a carried unfinished line, so any cut of the
body gives the same payloads.
