# rtrax

A terminal player for tracker modules (`.mod`, `.xm`, `.it`, `.s3m`, `.mtm`
and whatever else libopenmpt reads), with a file browser, M3U playlists,
a scrolling pattern view, level meters and a spectrum analyser.

## Layout

- `src/` — the player's logic as a Verus-verified library: configuration
  and key bindings, theme files and colour parsing, the file browser and its
  play order, playlists (M3U reading, shuffling, next/previous), launch
  decisions, the interactive UI state machine, the pattern-view layout, the
  progress bar, the audio thread's transport bookkeeping and the shared
  state. The public functions carry `requires`/`ensures` contracts, except
  four whose results rest on what nothing here models — the values inside
  std atomics (`AtomicU64Pair::new`, `load`, `store`) and the wall clock
  (`Rng::from_clock`). The properties that span several functions are stated
  as public proof functions.
- `tests/` — tests of the library on concrete values.
- `app/` — the executable: command line, terminal drawing (ratatui), the
  audio stream (cpal) and module decoding (libopenmpt), the spectrum FFT
  (rustfft), config and theme files (serde/toml) and logging.

libopenmpt must be installed as a system library to build the executable.

The original project also had a graphical front end built on eframe/egui
with desktop media controls (souvlaki). It is not part of this crate: those
crates are not available here, and its drawing is floating-point UI code.
Its launch logic (building a queue from dropped files and folders) lives in
`src/launch.rs`.
