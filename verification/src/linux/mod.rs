//! The X11 side.

use crate::event::DragEffect;
use vstd::prelude::*;

pub mod clipboard;
pub mod create;
pub mod dnd;
pub mod followup;
pub mod hotkey;
pub mod ime;
pub mod input;
pub mod keys;
pub mod locale;
pub mod paint;
pub mod session;
pub mod timers;
pub mod window;

verus! {

/// Dragging files out of a window is not offered here: nothing is dropped.
pub fn drag_files(paths: &[String], allow_move: bool) -> (r: DragEffect)
    ensures
        r == DragEffect::Nothing,
{
    DragEffect::Nothing
}

/// Windows are kept by the session, not by the application: none is open as far as this
/// question goes.
pub fn single_window_open(key: &str) -> (r: bool)
    ensures
        !r,
{
    false
}

/// How a program starts.
#[derive(Clone, Copy, Debug, PartialEq, Eq, Structural)]
pub enum StartMode {
    /// Draw a picture and leave.
    Screenshot,
    /// Running without a window is not supported here: leave.
    RefuseResident,
    /// Another instance runs and was told: leave.
    SecondInstance,
    Windowed,
}

/// How a program starts. `first_instance` is the outcome of asking for the single instance,
/// where the program wants to be one.
pub fn start_mode(screenshot: bool, resident: bool, first_instance: Option<bool>) -> (r: StartMode)
    ensures
        r == (if screenshot {
            StartMode::Screenshot
        } else if resident {
            StartMode::RefuseResident
        } else if first_instance == Some(false) {
            StartMode::SecondInstance
        } else {
            StartMode::Windowed
        }),
{
    if screenshot {
        return StartMode::Screenshot;
    }
    if resident {
        return StartMode::RefuseResident;
    }
    match first_instance {
        Some(first) => if first {
            StartMode::Windowed
        } else {
            StartMode::SecondInstance
        },
        None => StartMode::Windowed,
    }
}

/// Whether animations run, and the half period of the caret's blinking: turning animations off
/// stops the caret too, while the system's own setting does not.
pub fn motion(animations: Option<bool>, system: bool, half_period_ms: u32) -> (r: (bool, Option<u32>))
    ensures
        r.0 == (match animations {
            Some(on) => on,
            None => system,
        }),
        r.1 == (if animations == Some(false) { None } else { Some(half_period_ms) }),
{
    match animations {
        Some(on) => if on {
            (true, Some(half_period_ms))
        } else {
            (false, None)
        },
        None => (system, Some(half_period_ms)),
    }
}

} // verus!
