# yapel

The verified core of Yapel, a desktop YouTube Music player: the rules and parsers of the app,
written in Verus and proved against their contracts.

## Layout

- `src/` — the library. Every function carries a `requires`/`ensures` contract that Verus proves.
  - `json` — the JSON tree the response parsers walk, and its lookups.
  - `browse`, `header`, `pages` — YouTube Music browse responses: page models, playlist sort
    orders, header fields, and the home, artist, album, playlist, library and search pages built
    around their parsed rows.
  - `endpoints` — request pieces and reply handling for the InnerTube calls.
  - `lastfm` — Last.fm signing, replies, scrobbling, the connect flow, and opening the browser.
  - `session` — reading YouTube cookies out of a Firefox profile.
  - `player` — mpv commands, audio profiles, pitch, and playback-state tracking.
  - `commands`, `mini`, `tray` — the app's settings, mini player placement and tray menu.
  - `text`, `percent` — string helpers and percent-encoding.
- `tests/` — tests of the library on concrete values.
- `app/` — the desktop shell around the library (Tauri windows, mpv, D-Bus, HTTP, SQLite).
  It is ordinary Rust and is not verified.

Track rows and card subtitles are read by a row parser that is not part of this library; the
page functions take what it reads as arguments.
