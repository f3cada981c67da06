# radioboat

A terminal web radio client. Stations come from a TOML configuration file
and from imported station lists (web addresses or files); playback runs in
an `mpv` process steered over its JSON IPC socket.

## Layout

- `src/` — the verified library (Verus):
  - `text.rs` — ordering of names, trimming, separator search, numbers.
  - `station.rs` — stations, imports, configuration, and the merge of local
    and imported stations (local ones win on equal URLs, the result is
    stably sorted by lower-cased name).
  - `import.rs` — where an imported list is read from, and how the outcomes
    of reading all lists combine into stations and error messages.
  - `icy.rs` — station metadata from a stream's ICY headers.
  - `player.rs` — player state, player commands and the JSON lines that
    carry them, the lines the player sends and how they update the state,
    and the wait for the player's socket.
  - `message.rs` — messages shown to the user for five seconds, timed by a
    monotonic nanosecond clock that the program reads and hands in.
  - `app.rs` — the application state machine: keys, cursor, help overlay,
    refresh, copy and failure reporting.
  - `session.rs` — what the desktop media controls are told.
  - `layout.rs` — arithmetic of the screen layout.
  - `cli.rs` — command-line decisions.
- `app/` — the program around it: command line, terminal, rendering, the
  `mpv` process, HTTP and files, D-Bus (MPRIS) and the macOS media center.
- `tests/` — tests of the library.
