# qara

A terminal client for nyaa.si: search the RSS feed, pick a result, download
it into a torrent session and play the stream with mpv or as half-block
frames drawn in the terminal.

- `src/` is the verified library (Verus): the screens' decisions
  (`components`, `input`, `popup`, `table`), the application's state machine
  (`app`: terminal events and queued actions in, commands out), the feed
  items (`feed`), the video outputs (`vo`, `mode`) and the half-block
  renderer (`ansi`, `digits`).
- `app/` is the program around it: the terminal, the event loop, network
  fetches, the torrent session, the players and the drawing with ratatui.
- `tests/` exercises the library on concrete values.

`app/` uses librqbit for the torrent session. It is not in `Cargo.toml`:
with it the dependency lock exceeds the package limit of this build, so
`app/` does not type-check here until librqbit is added back.
