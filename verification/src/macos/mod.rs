//! The macOS side.

pub mod clipboard;
pub mod hotkey;
pub mod keys;
pub mod tray;
pub mod view;
