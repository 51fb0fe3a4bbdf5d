//! How a window is described, and which renderer draws it.

use crate::event::KeyEvent;
use crate::geometry::{Color, Rect};
use crate::hotkey::HotkeyBinding;
use crate::tray::Tray;
use vstd::prelude::*;

verus! {

/// How the renderer is chosen.
#[derive(Clone, Copy, Debug, PartialEq, Eq, Structural)]
#[non_exhaustive]
pub enum Renderer {
    /// The GPU, or software where no device can be had.
    Auto,
    Software,
    /// The GPU, and an error where no device can be had.
    Gpu,
}

impl Renderer {
    /// A GPU is to be tried.
    pub open spec fn tries_gpu(self) -> bool {
        self is Auto || self is Gpu
    }

    pub fn wants_gpu(self) -> (r: bool)
        ensures
            r == self.tries_gpu(),
    {
        matches!(self, Renderer::Auto | Renderer::Gpu)
    }

    /// Falling back on software is an error.
    pub fn requires_gpu(self) -> (r: bool)
        ensures
            r == (self is Gpu),
    {
        matches!(self, Renderer::Gpu)
    }
}

impl Default for Renderer {
    fn default() -> (r: Renderer)
        ensures
            r == Renderer::Software,
    {
        Renderer::Software
    }
}

/// The backend that draws.
#[derive(Clone, Copy, Debug, PartialEq, Eq, Structural)]
pub enum Backend {
    Gpu,
    /// `fell_back` is worth a warning: a GPU was tried and could not be had.
    Software { fell_back: bool },
    /// A GPU was demanded and cannot be had.
    Unavailable,
}

/// The backend for a choice of renderer, given whether there is a GPU backend at all and
/// whether its device could be made.
pub open spec fn backend_for(renderer: Renderer, supported: bool, device: bool) -> Backend {
    if renderer.tries_gpu() && supported && device {
        Backend::Gpu
    } else if renderer is Gpu {
        Backend::Unavailable
    } else {
        Backend::Software { fell_back: renderer.tries_gpu() && supported }
    }
}

pub fn choose_backend(renderer: Renderer, supported: bool, device: bool) -> (r: Backend)
    ensures
        r == backend_for(renderer, supported, device),
{
    if renderer.wants_gpu() && supported && device {
        return Backend::Gpu;
    }
    if renderer.requires_gpu() {
        return Backend::Unavailable;
    }
    Backend::Software { fell_back: renderer.wants_gpu() && supported }
}

/// Software is never drawn with where a GPU was demanded, and a GPU never where software was.
pub proof fn demands_are_kept(supported: bool, device: bool)
    ensures
        !(backend_for(Renderer::Gpu, supported, device) is Software),
        backend_for(Renderer::Software, supported, device) == (Backend::Software {
            fell_back: false,
        }),
        !(backend_for(Renderer::Auto, supported, device) is Unavailable),
{
}

/// What a pointer event hit.
#[derive(Clone, Copy, Debug)]
pub struct PointerHit {
    /// The node, or none where the point is blank.
    pub node: Option<u64>,
    /// The node's bounds.
    pub bounds: Rect,
    /// Some control took the event.
    pub consumed: bool,
}

/// A keyboard input that is played back before a screenshot.
#[derive(Clone, Debug)]
pub enum ScreenshotKey {
    /// Typed character by character.
    Text(String),
    Key(KeyEvent),
}

/// A window's description. `T` and `H` are the callbacks of the tray and of the hot keys.
pub struct WindowConfig<T, H> {
    pub title: String,
    pub width: i32,
    pub height: i32,
    pub bg: Color,
    pub centered: bool,
    pub resizable: bool,
    /// Draw one picture to this file instead of opening a window.
    pub screenshot: Option<String>,
    pub screenshot_rclick: Option<(i32, i32)>,
    pub screenshot_clicks: Vec<(i32, i32)>,
    pub screenshot_hover: Option<(i32, i32)>,
    pub screenshot_drag: Option<(i32, i32, i32, i32)>,
    pub screenshot_keys: Vec<ScreenshotKey>,
    pub tray: Option<Tray<T>>,
    pub hotkeys: Vec<HotkeyBinding<H>>,
    /// Create the window without showing it.
    pub start_hidden: bool,
    pub frameless: bool,
    /// Animations on or off; `None` follows the system.
    pub animations: Option<bool>,
    pub renderer: Renderer,
    /// The smallest client size; zero does not limit.
    pub min_width: i32,
    pub min_height: i32,
    /// At most one window with this key is open.
    pub single: Option<String>,
    /// The window belongs to the one that opened it.
    pub owned: bool,
    /// The window also blocks it.
    pub modal: bool,
}

impl<T, H> Default for WindowConfig<T, H> {
    fn default() -> (r: WindowConfig<T, H>)
        ensures
            r.title@ == "windui"@,
            r.width == 800 && r.height == 600,
            r.bg == (Color { r: 0xF3, g: 0xF3, b: 0xF3, a: 255 }),
            !r.centered && r.resizable && !r.start_hidden && !r.frameless && !r.owned && !r.modal,
            r.screenshot is None && r.screenshot_rclick is None && r.screenshot_hover is None
                && r.screenshot_drag is None,
            r.screenshot_clicks@.len() == 0 && r.screenshot_keys@.len() == 0,
            r.tray is None && r.hotkeys@.len() == 0,
            r.animations is None && r.single is None,
            r.renderer == Renderer::Software,
            r.min_width == 0 && r.min_height == 0,
    {
        WindowConfig {
            title: "windui".to_owned(),
            width: 800,
            height: 600,
            bg: Color { r: 0xF3, g: 0xF3, b: 0xF3, a: 255 },
            centered: false,
            resizable: true,
            screenshot: None,
            screenshot_rclick: None,
            screenshot_clicks: Vec::new(),
            screenshot_hover: None,
            screenshot_drag: None,
            screenshot_keys: Vec::new(),
            tray: None,
            hotkeys: Vec::new(),
            start_hidden: false,
            frameless: false,
            animations: None,
            renderer: Renderer::Software,
            min_width: 0,
            min_height: 0,
            single: None,
            owned: false,
            modal: false,
        }
    }
}

/// A window to create, or one with the same key to bring to the front.
pub enum NewWindow<C> {
    Create(C),
    /// The content was not built.
    Focus(String),
}

/// The GPU draws exactly where it is wanted, there is a backend for it and its device could be had.
/// Where it was demanded and cannot be had there is no backend; where it was only preferred,
/// software draws, and that is worth a warning if a device was tried for.
pub proof fn backends_follow_the_choice(renderer: Renderer, supported: bool, device: bool)
    ensures
        backend_for(renderer, supported, device) is Gpu <==> !(renderer is Software) && supported
            && device,
        backend_for(renderer, supported, device) is Unavailable <==> renderer is Gpu && !(supported
            && device),
        backend_for(renderer, supported, device) matches Backend::Software { fell_back } ==> (
        fell_back <==> renderer is Auto && supported && !device),
        renderer.tries_gpu() <==> !(renderer is Software),
{
}

} // verus!
