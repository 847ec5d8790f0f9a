# yado_notch

The decision logic of a desktop "activity notch" widget, written in Verus
and verified: the notch's stage state machine, the activity streak and its
calendar arithmetic, which focus and file-save events are recorded, the
app/media naming rules, and the window-style and drag-and-drop decisions.

Layout:

- `src/notch.rs`: stages, the poll decision (`daemon_tick`), commands on the
  shared stage, rectangle geometry, and the laws of the state machine.
- `src/calendar.rs`: `YYYY-MM-DD` parsing and rendering, the previous day,
  calendar laws.
- `src/stats.rs`: dashboard values, the streak walk, task rows and listings.
- `src/tracker.rs`: tracker configuration, focus recording, save
  classification and debouncing.
- `src/media.rs`, `src/icons.rs`, `src/shelf.rs`, `src/windows.rs`: media
  session choice and names, icon files and data URLs, shelf drag decisions,
  window styles and fullscreen-cover detection.
- `src/widget.rs`: the standalone activity widget's greeting.
- `src/text.rs`: character-level string helpers.
- `app/`: the Tauri application around the library (windows, tray, SQLite,
  file watching, OS calls, serialization).
- `tests/`: runtime tests of the library.
