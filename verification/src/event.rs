//! Input events, hot keys and window intents as plain values.

use vstd::prelude::*;

verus! {

/// A key as the toolkit names it.
#[derive(Clone, Copy, Debug, PartialEq, Eq, Structural)]
pub enum Key {
    Char(char),
    Tab,
    Enter,
    Escape,
    Space,
    Backspace,
    Delete,
    Left,
    Right,
    Up,
    Down,
    Home,
    End,
    PageUp,
    PageDown,
    Insert,
    /// Function key, counted from 1.
    F(u8),
    NumpadAdd,
    NumpadSubtract,
    NumpadMultiply,
    NumpadDivide,
    ContextMenu,
    Alt,
    /// A key without a name, by its Windows virtual-key code.
    Other(u32),
}

/// Modifier keys that are held down.
#[derive(Clone, Copy, Debug, PartialEq, Eq, Structural)]
pub struct Mods {
    pub ctrl: bool,
    pub alt: bool,
    pub shift: bool,
    pub meta: bool,
}

/// A global key combination.
#[derive(Clone, Copy, Debug, PartialEq, Eq, Structural)]
pub struct Hotkey {
    pub key: Key,
    pub mods: Mods,
}

impl Hotkey {
    pub fn new(key: Key) -> (r: Hotkey)
        ensures
            r == (Hotkey {
                key,
                mods: (Mods { ctrl: false, alt: false, shift: false, meta: false }),
            }),
    {
        Hotkey { key, mods: Mods { ctrl: false, alt: false, shift: false, meta: false } }
    }

    pub fn ctrl(self) -> (r: Hotkey)
        ensures
            r == (Hotkey { mods: (Mods { ctrl: true, ..self.mods }), ..self }),
    {
        Hotkey { key: self.key, mods: Mods { ctrl: true, ..self.mods } }
    }

    pub fn alt(self) -> (r: Hotkey)
        ensures
            r == (Hotkey { mods: (Mods { alt: true, ..self.mods }), ..self }),
    {
        Hotkey { key: self.key, mods: Mods { alt: true, ..self.mods } }
    }

    pub fn shift(self) -> (r: Hotkey)
        ensures
            r == (Hotkey { mods: (Mods { shift: true, ..self.mods }), ..self }),
    {
        Hotkey { key: self.key, mods: Mods { shift: true, ..self.mods } }
    }

    pub fn meta(self) -> (r: Hotkey)
        ensures
            r == (Hotkey { mods: (Mods { meta: true, ..self.mods }), ..self }),
    {
        Hotkey { key: self.key, mods: Mods { meta: true, ..self.mods } }
    }
}

/// A change to a registered hot key at run time.
#[derive(Clone, Copy, Debug, PartialEq, Eq, Structural)]
pub enum HotkeyOp {
    Rebind(Hotkey),
    SetEnabled(bool),
}

/// A window intent declared by a callback.
#[derive(Clone, Copy, Debug, PartialEq, Eq, Structural)]
pub enum WindowOp {
    Minimize,
    ToggleMaximize,
    Maximize,
    Restore,
    Show,
    Hide,
}

/// What a hot key callback may ask for.
#[derive(Clone, Copy, Debug)]
pub struct HotkeyCtx {
    pub op: Option<WindowOp>,
}

impl HotkeyCtx {
    pub fn new() -> (r: HotkeyCtx)
        ensures
            r.op is None,
    {
        HotkeyCtx { op: None }
    }

    /// Takes the declared intent, leaving none.
    pub fn take_op(&mut self) -> (r: Option<WindowOp>)
        ensures
            r == old(self).op,
            final(self).op is None,
    {
        let op = self.op;
        self.op = None;
        op
    }
}

/// A key press or release.
#[derive(Clone, Copy, Debug, PartialEq, Eq, Structural)]
pub struct KeyEvent {
    pub key: Key,
    pub pressed: bool,
    pub shift: bool,
    pub ctrl: bool,
    pub alt: bool,
    pub meta: bool,
}

#[derive(Clone, Copy, Debug, PartialEq, Eq, Structural)]
pub enum MouseButton {
    Left,
    Right,
    Middle,
}

#[derive(Clone, Copy, Debug, PartialEq, Eq, Structural)]
pub enum PointerKind {
    Down,
    Up,
    Move,
    /// Wheel rotation; 120 is one notch away from the user.
    Wheel(i32),
}

/// A pointer event at a position in physical pixels.
#[derive(Clone, Copy, Debug, PartialEq, Eq, Structural)]
pub struct PointerEvent {
    pub kind: PointerKind,
    pub x: i32,
    pub y: i32,
    pub button: MouseButton,
    pub click_count: u32,
    pub mods: Mods,
}

impl PointerEvent {
    /// A single event without modifiers.
    pub open spec fn plain(kind: PointerKind, x: i32, y: i32, button: MouseButton) -> PointerEvent {
        PointerEvent {
            kind,
            x,
            y,
            button,
            click_count: 1,
            mods: Mods { ctrl: false, alt: false, shift: false, meta: false },
        }
    }

    pub fn single(kind: PointerKind, x: i32, y: i32, button: MouseButton) -> (r: PointerEvent)
        ensures
            r == PointerEvent::plain(kind, x, y, button),
    {
        PointerEvent {
            kind,
            x,
            y,
            button,
            click_count: 1,
            mods: Mods { ctrl: false, alt: false, shift: false, meta: false },
        }
    }
}

#[derive(Clone, Copy, Debug, PartialEq, Eq, Structural)]
pub enum CursorShape {
    Arrow,
    Hand,
    Text,
    SizeWE,
    SizeNS,
}

/// What became of an outgoing file drag.
#[derive(Clone, Copy, Debug, PartialEq, Eq, Structural)]
pub enum DragEffect {
    /// Nothing was dropped, or the target refused it.
    Nothing,
    Copy,
    Move,
    Link,
}

/// The text of an input method's composition, before it is committed.
pub struct Preedit {
    pub text: String,
    /// The caret, in characters.
    pub caret: usize,
    /// The part being converted.
    pub sel: Option<(usize, usize)>,
}

impl Preedit {
    /// No composition.
    pub open spec fn none(self) -> bool {
        self.text@.len() == 0 && self.caret == 0 && self.sel is None
    }

    pub fn new() -> (r: Preedit)
        ensures
            r.none(),
    {
        Preedit { text: String::new(), caret: 0, sel: None }
    }

    /// There is something to display.
    pub fn is_active(&self) -> (r: bool)
        ensures
            r == (self.text@.len() > 0),
    {
        !self.text.as_str().is_empty()
    }
}

/// A request for a new window, which is to be filled with a `C`.
#[derive(Debug, PartialEq, Eq)]
pub struct WindowRequest<C> {
    pub title: String,
    pub width: i32,
    pub height: i32,
    /// At most one window with this key is open at a time.
    pub single: Option<String>,
    pub content: C,
}

/// Windows that callbacks asked for and that are not created yet, oldest first.
pub struct CallbackWindows<C> {
    pub queue: Vec<WindowRequest<C>>,
}

impl<C> CallbackWindows<C> {
    pub fn new() -> (r: CallbackWindows<C>)
        ensures
            r.queue@ == Seq::<WindowRequest<C>>::empty(),
    {
        CallbackWindows { queue: Vec::new() }
    }

    /// Takes the oldest request.
    pub fn take_callback_window(&mut self) -> (r: Option<WindowRequest<C>>)
        ensures
            old(self).queue@.len() == 0 ==> r is None && *final(self) == *old(self),
            old(self).queue@.len() > 0 ==> r == Some(old(self).queue@[0]) && final(self).queue@
                == old(self).queue@.skip(1),
    {
        if self.queue.len() == 0 {
            None
        } else {
            let first = self.queue.remove(0);
            proof {
                assert(self.queue@ =~= old(self).queue@.skip(1));
            }
            Some(first)
        }
    }

    /// Takes all requests.
    pub fn take_callback_windows(&mut self) -> (r: Vec<WindowRequest<C>>)
        ensures
            r@ == old(self).queue@,
            final(self).queue@ == Seq::<WindowRequest<C>>::empty(),
    {
        let mut out: Vec<WindowRequest<C>> = Vec::new();
        core::mem::swap(&mut out, &mut self.queue);
        out
    }
}

/// A plain event is a single one, where it is, without modifiers.
pub proof fn plain_events_are_single(kind: PointerKind, x: i32, y: i32, button: MouseButton)
    ensures
        ({
            let e = PointerEvent::plain(kind, x, y, button);
            &&& e.kind == kind && e.x == x && e.y == y && e.button == button
            &&& e.click_count == 1
            &&& !e.mods.ctrl && !e.mods.alt && !e.mods.shift && !e.mods.meta
        }),
{
}

} // verus!
