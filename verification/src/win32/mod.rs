//! The Windows side.

pub mod chars;
pub mod click;
pub mod d2d;
pub mod dragdrop;
pub mod frame;
pub mod message;
pub mod pacing;
pub mod paint;
pub mod touch;
pub mod tray;
