//! State engines for a Wayland status bar.
//!
//! The library holds the logic of the bar: the compositor state reducer that
//! folds workspace and window events into queryable maps, the reconnecting
//! stream machine that feeds it, the tray registry multiplexer that merges
//! per-item event streams, and the icon-name matching heuristics.  All I/O
//! (the compositor socket, the desktop bus, the icon directories on disk)
//! lives outside the library and hands it plain values.

pub mod config;
pub mod fdo_icons;
pub mod keyed;
pub mod niri;
pub mod text;
pub mod theme;
pub mod tray;
