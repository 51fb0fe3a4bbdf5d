//! The platform layer of a small UI toolkit, with the decisions taken out of the operating
//! system calls: what a key, a click, a window message, a selection request or a timer tick
//! means is computed here from plain values and proved; a thin host performs the actions.

pub mod config;
pub mod dialog;
pub mod event;
pub mod geometry;
pub mod hotkey;
pub mod linux;
pub mod macos;
pub mod picture_path;
pub mod registry;
pub mod screenshot;
pub mod signal;
pub mod surface;
pub mod text;
pub mod tray;
pub mod win32;
