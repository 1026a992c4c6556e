//! rtrax — the playback-independent logic of a terminal module player:
//! configuration names, playlists, shuffle order, key bindings, the file
//! browser's listing and navigation, pattern-view layout, theme palettes and
//! the small text formatters used by the display.

pub mod text;
pub mod config;
pub mod rng;
pub mod paths;
pub mod playlist;
pub mod input;
pub mod sorting;
pub mod files;
pub mod browser;
pub mod pattern;
pub mod launch;
pub mod ui;
pub mod progress;
pub mod theme;
pub mod info;
pub mod state;
pub mod transport;
pub mod meters;
