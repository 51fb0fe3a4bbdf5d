//! Window messages: what each one asks of the host, and what it answers.

use super::chars;
use super::click::{ClickLimits, ClickTracker};
use super::touch::Touch;
use crate::event::{KeyEvent, MouseButton, PointerEvent, PointerKind};
use vstd::prelude::*;

verus! {

pub const WM_DESTROY: u32 = 0x0002;

pub const WM_SIZE: u32 = 0x0005;

pub const WM_ACTIVATE: u32 = 0x0006;

pub const WM_PAINT: u32 = 0x000F;

pub const WM_CLOSE: u32 = 0x0010;

pub const WM_SETCURSOR: u32 = 0x0020;

pub const WM_GETMINMAXINFO: u32 = 0x0024;

pub const WM_NCCREATE: u32 = 0x0081;

pub const WM_NCCALCSIZE: u32 = 0x0083;

pub const WM_NCHITTEST: u32 = 0x0084;

pub const WM_NCMOUSEMOVE: u32 = 0x00A0;

pub const WM_KEYDOWN: u32 = 0x0100;

pub const WM_CHAR: u32 = 0x0102;

pub const WM_IME_STARTCOMPOSITION: u32 = 0x010D;

pub const WM_IME_ENDCOMPOSITION: u32 = 0x010E;

pub const WM_IME_COMPOSITION: u32 = 0x010F;

pub const WM_TIMER: u32 = 0x0113;

pub const WM_MOUSEMOVE: u32 = 0x0200;

pub const WM_LBUTTONDOWN: u32 = 0x0201;

pub const WM_LBUTTONUP: u32 = 0x0202;

pub const WM_LBUTTONDBLCLK: u32 = 0x0203;

pub const WM_RBUTTONDOWN: u32 = 0x0204;

pub const WM_RBUTTONUP: u32 = 0x0205;

pub const WM_MOUSEWHEEL: u32 = 0x020A;

pub const WM_CAPTURECHANGED: u32 = 0x0215;

pub const WM_ENTERSIZEMOVE: u32 = 0x0231;

pub const WM_EXITSIZEMOVE: u32 = 0x0232;

pub const WM_DROPFILES: u32 = 0x0233;

pub const WM_TOUCH: u32 = 0x0240;

pub const WM_MOUSELEAVE: u32 = 0x02A3;

pub const WM_DPICHANGED: u32 = 0x02E0;

pub const WM_HOTKEY: u32 = 0x0312;

/// The first of an application's own messages.
pub const WM_APP: u32 = 0x8000;

/// The tray icon's messages.
pub const WM_TRAYICON: u32 = WM_APP + 1;

/// Another thread asks for a frame.
pub const WM_APP_WAKE: u32 = WM_APP + 2;

/// `WM_SIZE`: the window was minimized.
pub const SIZE_MINIMIZED: u64 = 1;

/// The client area, in hit tests.
pub const HTCLIENT: u16 = 1;

/// At most this many touch points are read at once.
pub const TOUCH_POINTS: u16 = 8;

/// The low sixteen bits.
pub open spec fn lo(v: u64) -> u16 {
    (v % 0x1_0000) as u16
}

/// The sixteen bits above those.
pub open spec fn hi(v: u64) -> u16 {
    (v / 0x1_0000 % 0x1_0000) as u16
}

/// Sixteen bits as a signed number.
pub open spec fn signed(v: u16) -> i32 {
    if v >= 0x8000 { (v - 0x1_0000) as i32 } else { v as i32 }
}

fn lo_of(v: u64) -> (r: u16)
    ensures
        r == lo(v),
{
    (v % 0x1_0000) as u16
}

fn hi_of(v: u64) -> (r: u16)
    ensures
        r == hi(v),
{
    (v / 0x1_0000 % 0x1_0000) as u16
}

fn signed_of(v: u16) -> (r: i32)
    ensures
        r == signed(v),
{
    if v >= 0x8000 { v as i32 - 0x1_0000 } else { v as i32 }
}

/// What the host knows besides the message itself.
#[derive(Clone, Copy, Debug, PartialEq, Eq, Structural)]
pub struct Ambient {
    /// The message's extra information.
    pub extra: u64,
    /// The message's time.
    pub time: u32,
    pub limits: ClickLimits,
    pub shift: bool,
    pub ctrl: bool,
}

/// A mouse message that the system made up from a touch. The touch itself is handled.
pub open spec fn from_touch(extra: u64) -> bool {
    extra % 0x1_0000_0000 / 0x100 == 0xFF_5157
}

pub fn is_touch_event(extra: u64) -> (r: bool)
    ensures
        r == from_touch(extra),
{
    extra % 0x1_0000_0000 / 0x100 == 0xFF_5157
}

/// A key is held down when the top bit of its state is set.
pub fn key_held(state: i16) -> (r: bool)
    ensures
        r == (state < 0),
{
    state < 0
}

/// What the double-click settings allow: half the rectangle each way.
pub fn click_limits(ms: u32, cx: i32, cy: i32) -> (r: ClickLimits)
    requires
        0 <= cx,
        0 <= cy,
    ensures
        r == (ClickLimits { ms, dx: (cx / 2) as i32, dy: (cy / 2) as i32 }),
        2 * r.dx <= cx <= 2 * r.dx + 1,
        2 * r.dy <= cy <= 2 * r.dy + 1,
        r.ms == ms,
{
    ClickLimits { ms, dx: cx / 2, dy: cy / 2 }
}

/// What the message procedure keeps of a window.
#[derive(Clone, Copy, Debug, PartialEq, Eq, Structural)]
pub struct WndState {
    pub capturing: bool,
    pub frameless: bool,
    pub mouse_tracked: bool,
    pub in_size_move: bool,
    pub pending_surrogate: Option<u16>,
    pub min_w: i32,
    pub min_h: i32,
    pub last_click: ClickTracker,
    pub touch: Touch,
}

/// What the host does for a message.
#[derive(Clone, Copy, Debug, PartialEq, Eq, Structural)]
pub enum WndAction {
    Nothing,
    /// Attach the window's state.
    Bind,
    Paint,
    /// Report the smallest size.
    MinTrack,
    /// Resize the buffer, and paint at once or leave that to a later message.
    Resize { w: i32, h: i32, paint_now: bool },
    /// Compute a frameless window's client area.
    NcCalcSize,
    /// Find out what lies at a screen position of a frameless window.
    NcHitTest { sx: i32, sy: i32 },
    SetCursor,
    Pointer(PointerEvent),
    /// An event at a screen position, which the host makes relative to the window.
    ScreenPointer(PointerEvent),
    Key(KeyEvent),
    CaptureLost,
    Activated(bool),
    DpiChanged { dpi: u16 },
    /// Read this many touch points.
    ReadTouch { points: u16 },
    Drop,
    /// A timer, counted from zero.
    Timer { index: u64 },
    ImeStart,
    ImeMove,
    ImeEnd,
    CloseRequest,
    /// Draw the other windows again if a shared value changed.
    Broadcast,
    Destroyed,
}

/// What the message procedure answers.
#[derive(Clone, Copy, Debug, PartialEq, Eq, Structural)]
pub enum Reply {
    Zero,
    One,
    /// The number of the hit that the action finds.
    Hit,
    /// The system's own answer, after the action.
    System,
}

#[derive(Clone, Copy, Debug, PartialEq, Eq, Structural)]
pub struct Outcome {
    pub action: WndAction,
    pub reply: Reply,
    /// Ask the system to tell when the pointer leaves.
    pub track_leave: bool,
}

/// A button's number in click counting.
pub open spec fn button_number(b: MouseButton) -> i32 {
    match b {
        MouseButton::Left => 1,
        MouseButton::Right => 2,
        MouseButton::Middle => 3,
    }
}

fn number_of(b: MouseButton) -> (r: i32)
    ensures
        r == button_number(b),
{
    match b {
        MouseButton::Left => 1,
        MouseButton::Right => 2,
        MouseButton::Middle => 3,
    }
}

pub open spec fn does(action: WndAction, reply: Reply) -> Outcome {
    Outcome { action, reply, track_leave: false }
}

/// A mouse message: the state after it and what the host does. A press counts clicks; what came
/// from a touch is dropped.
pub open spec fn pointer_outcome(
    s: WndState,
    kind: PointerKind,
    button: MouseButton,
    lparam: u64,
    a: Ambient,
) -> (WndState, WndAction) {
    let x = signed(lo(lparam));
    let y = signed(hi(lparam));
    let click = s.last_click.bumped(button_number(button), x, y, a.time, a.limits);
    if from_touch(a.extra) {
        (s, WndAction::Nothing)
    } else if kind == PointerKind::Down {
        (
            WndState { last_click: click, ..s },
            WndAction::Pointer(
                PointerEvent {
                    click_count: click.count as u32,
                    ..PointerEvent::plain(kind, x, y, button)
                },
            ),
        )
    } else {
        (s, WndAction::Pointer(PointerEvent::plain(kind, x, y, button)))
    }
}

/// The messages of the mouse.
pub open spec fn mouse_message(msg: u32) -> bool {
    ||| msg == WM_MOUSEMOVE
    ||| msg == WM_NCMOUSEMOVE
    ||| msg == WM_MOUSELEAVE
    ||| msg == WM_LBUTTONDOWN
    ||| msg == WM_LBUTTONUP
    ||| msg == WM_RBUTTONDOWN
    ||| msg == WM_RBUTTONUP
    ||| msg == WM_MOUSEWHEEL
}

/// A mouse message to a window: the state after it and what the host does.
pub open spec fn mouse_outcome(s: WndState, msg: u32, wparam: u64, lparam: u64, a: Ambient) -> (
    WndState,
    Outcome,
) {
    let x = signed(lo(lparam));
    let y = signed(hi(lparam));
    if msg == WM_MOUSEMOVE {
        let inside = WndState { mouse_tracked: true, ..s };
        let (after, action) = pointer_outcome(
            inside,
            PointerKind::Move,
            MouseButton::Left,
            lparam,
            a,
        );
        (after, Outcome { action, reply: Reply::Zero, track_leave: !s.mouse_tracked })
    } else if msg == WM_NCMOUSEMOVE {
        (
            s,
            does(
                WndAction::ScreenPointer(
                    PointerEvent::plain(PointerKind::Move, x, y, MouseButton::Left),
                ),
                Reply::System,
            ),
        )
    } else if msg == WM_MOUSELEAVE {
        (
            WndState { mouse_tracked: false, ..s },
            does(
                WndAction::Pointer(
                    PointerEvent::plain(PointerKind::Move, -1i32, -1i32, MouseButton::Left),
                ),
                Reply::Zero,
            ),
        )
    } else if msg == WM_LBUTTONDOWN || msg == WM_LBUTTONUP || msg == WM_RBUTTONDOWN || msg
        == WM_RBUTTONUP {
        let kind = if msg == WM_LBUTTONDOWN || msg == WM_RBUTTONDOWN {
            PointerKind::Down
        } else {
            PointerKind::Up
        };
        let button = if msg == WM_LBUTTONDOWN || msg == WM_LBUTTONUP {
            MouseButton::Left
        } else {
            MouseButton::Right
        };
        let (after, action) = pointer_outcome(s, kind, button, lparam, a);
        (after, does(action, Reply::Zero))
    } else {
        (
            s,
            does(
                WndAction::ScreenPointer(
                    PointerEvent::plain(
                        PointerKind::Wheel(signed(hi(wparam))),
                        x,
                        y,
                        MouseButton::Left,
                    ),
                ),
                Reply::Zero,
            ),
        )
    }
}

/// What is done for a message of `n` touch points.
pub open spec fn touch_action(n: u16) -> WndAction {
    if n == 0 {
        WndAction::Nothing
    } else {
        WndAction::ReadTouch { points: if n > TOUCH_POINTS { TOUCH_POINTS } else { n } }
    }
}

/// A message to a window: the state after it and what the host does.
pub open spec fn message_outcome(s: WndState, msg: u32, wparam: u64, lparam: u64, a: Ambient) -> (
    WndState,
    Outcome,
) {
    let x = signed(lo(lparam));
    let y = signed(hi(lparam));
    if msg == WM_NCCREATE {
        (s, does(WndAction::Bind, Reply::System))
    } else if msg == WM_PAINT {
        (s, does(WndAction::Paint, Reply::Zero))
    } else if msg == WM_GETMINMAXINFO {
        if s.min_w > 0 || s.min_h > 0 {
            (s, does(WndAction::MinTrack, Reply::Zero))
        } else {
            (s, does(WndAction::Nothing, Reply::System))
        }
    } else if msg == WM_SIZE {
        if wparam % 0x1_0000_0000 == SIZE_MINIMIZED {
            (s, does(WndAction::Nothing, Reply::Zero))
        } else {
            (
                s,
                does(
                    WndAction::Resize {
                        w: lo(lparam) as i32,
                        h: hi(lparam) as i32,
                        paint_now: !s.in_size_move,
                    },
                    Reply::Zero,
                ),
            )
        }
    } else if msg == WM_ENTERSIZEMOVE {
        (WndState { in_size_move: true, ..s }, does(WndAction::Nothing, Reply::System))
    } else if msg == WM_EXITSIZEMOVE {
        (WndState { in_size_move: false, ..s }, does(WndAction::Nothing, Reply::System))
    } else if msg == WM_NCCALCSIZE && wparam != 0 && s.frameless {
        (s, does(WndAction::NcCalcSize, Reply::Zero))
    } else if msg == WM_NCHITTEST && s.frameless {
        (s, does(WndAction::NcHitTest { sx: x, sy: y }, Reply::Hit))
    } else if msg == WM_SETCURSOR {
        if lo(lparam) == HTCLIENT {
            (s, does(WndAction::SetCursor, Reply::One))
        } else {
            (s, does(WndAction::Nothing, Reply::System))
        }
    } else if mouse_message(msg) {
        mouse_outcome(s, msg, wparam, lparam, a)
    } else if msg == WM_KEYDOWN {
        (
            s,
            does(
                WndAction::Key(
                    KeyEvent {
                        key: chars::key_of_vk(lo(wparam)),
                        pressed: true,
                        shift: a.shift,
                        ctrl: a.ctrl,
                        alt: false,
                        meta: false,
                    },
                ),
                Reply::Zero,
            ),
        )
    } else if msg == WM_CHAR {
        let (pending, c) = chars::accumulated(s.pending_surrogate, lo(wparam));
        (
            WndState { pending_surrogate: pending, ..s },
            does(
                match chars::typed(c) {
                    Some(ev) => WndAction::Key(ev),
                    None => WndAction::Nothing,
                },
                Reply::Zero,
            ),
        )
    } else if msg == WM_CAPTURECHANGED {
        (
            WndState { capturing: false, ..s },
            does(
                if s.capturing { WndAction::CaptureLost } else { WndAction::Nothing },
                Reply::Zero,
            ),
        )
    } else if msg == WM_ACTIVATE {
        (s, does(WndAction::Activated(lo(wparam) != 0), Reply::System))
    } else if msg == WM_DPICHANGED {
        (s, does(WndAction::DpiChanged { dpi: lo(wparam) }, Reply::Zero))
    } else if msg == WM_TOUCH {
        (s, does(touch_action(lo(wparam)), Reply::Zero))
    } else if msg == WM_DROPFILES {
        (s, does(WndAction::Drop, Reply::Zero))
    } else if msg == WM_TIMER {
        (
            s,
            does(
                WndAction::Timer { index: if wparam == 0 { 0 } else { (wparam - 1) as u64 } },
                Reply::Zero,
            ),
        )
    } else if msg == WM_IME_STARTCOMPOSITION {
        (s, does(WndAction::ImeStart, Reply::System))
    } else if msg == WM_IME_COMPOSITION {
        (s, does(WndAction::ImeMove, Reply::System))
    } else if msg == WM_IME_ENDCOMPOSITION {
        (s, does(WndAction::ImeEnd, Reply::System))
    } else if msg == WM_CLOSE {
        (s, does(WndAction::CloseRequest, Reply::Zero))
    } else if msg == WM_DESTROY {
        (s, does(WndAction::Destroyed, Reply::Zero))
    } else {
        (s, does(WndAction::Nothing, Reply::System))
    }
}

fn read_touch(n: u16) -> (r: WndAction)
    ensures
        r == touch_action(n),
{
    if n == 0 {
        WndAction::Nothing
    } else {
        WndAction::ReadTouch { points: if n > TOUCH_POINTS { TOUCH_POINTS } else { n } }
    }
}

fn done(action: WndAction, reply: Reply) -> (r: Outcome)
    ensures
        r == does(action, reply),
{
    Outcome { action, reply, track_leave: false }
}

impl WndState {
    /// What waits for its second half is a first half.
    pub open spec fn wf(self) -> bool {
        chars::pending_ok(self.pending_surrogate)
    }

    pub fn new(min_w: i32, min_h: i32) -> (r: WndState)
        ensures
            r.wf(),
            r.touch.wf(),
            r == (WndState {
                capturing: false,
                frameless: false,
                mouse_tracked: false,
                in_size_move: false,
                pending_surrogate: None,
                min_w,
                min_h,
                last_click: (ClickTracker { time_ms: 0, x: 0, y: 0, button: 0, count: 0 }),
                touch: Touch::lifted(),
            }),
    {
        WndState {
            capturing: false,
            frameless: false,
            mouse_tracked: false,
            in_size_move: false,
            pending_surrogate: None,
            min_w,
            min_h,
            last_click: ClickTracker::default(),
            touch: Touch::new(),
        }
    }

    fn on_pointer(&mut self, kind: PointerKind, button: MouseButton, lparam: u64, a: Ambient) -> (r:
        WndAction)
        ensures
            (*final(self), r) == pointer_outcome(*old(self), kind, button, lparam, a),
    {
        if is_touch_event(a.extra) {
            return WndAction::Nothing;
        }
        let x: i32 = signed_of(lo_of(lparam));
        let y: i32 = signed_of(hi_of(lparam));
        let mut ev = PointerEvent::single(kind, x, y, button);
        if let PointerKind::Down = kind {
            let count: u8 = self.last_click.bump(
                number_of(button),
                x,
                y,
                a.time,
                a.limits.ms,
                a.limits.dx,
                a.limits.dy,
            );
            ev.click_count = count as u32;
        }
        WndAction::Pointer(ev)
    }

    fn on_mouse(&mut self, msg: u32, wparam: u64, lparam: u64, a: Ambient) -> (r: Outcome)
        requires
            mouse_message(msg),
        ensures
            (*final(self), r) == mouse_outcome(*old(self), msg, wparam, lparam, a),
            final(self).pending_surrogate == old(self).pending_surrogate,
    {
        match msg {
            WM_MOUSEMOVE => {
                let track_leave = !self.mouse_tracked;
                self.mouse_tracked = true;
                let action = self.on_pointer(PointerKind::Move, MouseButton::Left, lparam, a);
                Outcome { action, reply: Reply::Zero, track_leave }
            },
            WM_NCMOUSEMOVE => done(
                WndAction::ScreenPointer(
                    PointerEvent::single(
                        PointerKind::Move,
                        signed_of(lo_of(lparam)),
                        signed_of(hi_of(lparam)),
                        MouseButton::Left,
                    ),
                ),
                Reply::System,
            ),
            WM_MOUSELEAVE => {
                self.mouse_tracked = false;
                done(
                    WndAction::Pointer(
                        PointerEvent::single(PointerKind::Move, -1, -1, MouseButton::Left),
                    ),
                    Reply::Zero,
                )
            },
            WM_LBUTTONDOWN => {
                let action = self.on_pointer(PointerKind::Down, MouseButton::Left, lparam, a);
                done(action, Reply::Zero)
            },
            WM_LBUTTONUP => {
                let action = self.on_pointer(PointerKind::Up, MouseButton::Left, lparam, a);
                done(action, Reply::Zero)
            },
            WM_RBUTTONDOWN => {
                let action = self.on_pointer(PointerKind::Down, MouseButton::Right, lparam, a);
                done(action, Reply::Zero)
            },
            WM_RBUTTONUP => {
                let action = self.on_pointer(PointerKind::Up, MouseButton::Right, lparam, a);
                done(action, Reply::Zero)
            },
            _ => done(
                WndAction::ScreenPointer(
                    PointerEvent::single(
                        PointerKind::Wheel(signed_of(hi_of(wparam))),
                        signed_of(lo_of(lparam)),
                        signed_of(hi_of(lparam)),
                        MouseButton::Left,
                    ),
                ),
                Reply::Zero,
            ),
        }
    }

    /// A message to the window.
    #[verifier::rlimit(30)]
    pub fn on_message(&mut self, msg: u32, wparam: u64, lparam: u64, a: Ambient) -> (r: Outcome)
        requires
            old(self).wf(),
        ensures
            (*final(self), r) == message_outcome(*old(self), msg, wparam, lparam, a),
            final(self).wf(),
    {
        match msg {
            WM_NCCREATE => done(WndAction::Bind, Reply::System),
            WM_PAINT => done(WndAction::Paint, Reply::Zero),
            WM_GETMINMAXINFO => if self.min_w > 0 || self.min_h > 0 {
                done(WndAction::MinTrack, Reply::Zero)
            } else {
                done(WndAction::Nothing, Reply::System)
            },
            WM_SIZE => {
                if wparam % 0x1_0000_0000 == SIZE_MINIMIZED {
                    return done(WndAction::Nothing, Reply::Zero);
                }
                done(
                    WndAction::Resize {
                        w: lo_of(lparam) as i32,
                        h: hi_of(lparam) as i32,
                        paint_now: !self.in_size_move,
                    },
                    Reply::Zero,
                )
            },
            WM_ENTERSIZEMOVE => {
                self.in_size_move = true;
                done(WndAction::Nothing, Reply::System)
            },
            WM_EXITSIZEMOVE => {
                self.in_size_move = false;
                done(WndAction::Nothing, Reply::System)
            },
            WM_NCCALCSIZE => if wparam != 0 && self.frameless {
                done(WndAction::NcCalcSize, Reply::Zero)
            } else {
                done(WndAction::Nothing, Reply::System)
            },
            WM_NCHITTEST => if self.frameless {
                done(
                    WndAction::NcHitTest {
                        sx: signed_of(lo_of(lparam)),
                        sy: signed_of(hi_of(lparam)),
                    },
                    Reply::Hit,
                )
            } else {
                done(WndAction::Nothing, Reply::System)
            },
            WM_SETCURSOR => if lo_of(lparam) == HTCLIENT {
                done(WndAction::SetCursor, Reply::One)
            } else {
                done(WndAction::Nothing, Reply::System)
            },
            WM_MOUSEMOVE | WM_NCMOUSEMOVE | WM_MOUSELEAVE | WM_LBUTTONDOWN | WM_LBUTTONUP
            | WM_RBUTTONDOWN | WM_RBUTTONUP | WM_MOUSEWHEEL => self.on_mouse(
                msg,
                wparam,
                lparam,
                a,
            ),
            WM_KEYDOWN => done(
                WndAction::Key(
                    KeyEvent {
                        key: chars::map_vk(lo_of(wparam)),
                        pressed: true,
                        shift: a.shift,
                        ctrl: a.ctrl,
                        alt: false,
                        meta: false,
                    },
                ),
                Reply::Zero,
            ),
            WM_CHAR => {
                let c = chars::accumulate_char(&mut self.pending_surrogate, lo_of(wparam));
                match chars::char_event(c) {
                    Some(ev) => done(WndAction::Key(ev), Reply::Zero),
                    None => done(WndAction::Nothing, Reply::Zero),
                }
            },
            WM_CAPTURECHANGED => {
                let had = self.capturing;
                self.capturing = false;
                done(if had { WndAction::CaptureLost } else { WndAction::Nothing }, Reply::Zero)
            },
            WM_ACTIVATE => done(WndAction::Activated(lo_of(wparam) != 0), Reply::System),
            WM_DPICHANGED => done(WndAction::DpiChanged { dpi: lo_of(wparam) }, Reply::Zero),
            WM_TOUCH => done(read_touch(lo_of(wparam)), Reply::Zero),
            WM_DROPFILES => done(WndAction::Drop, Reply::Zero),
            WM_TIMER => done(
                WndAction::Timer { index: if wparam == 0 { 0 } else { wparam - 1 } },
                Reply::Zero,
            ),
            WM_IME_STARTCOMPOSITION => done(WndAction::ImeStart, Reply::System),
            WM_IME_COMPOSITION => done(WndAction::ImeMove, Reply::System),
            WM_IME_ENDCOMPOSITION => done(WndAction::ImeEnd, Reply::System),
            WM_CLOSE => done(WndAction::CloseRequest, Reply::Zero),
            WM_DESTROY => done(WndAction::Destroyed, Reply::Zero),
            _ => done(WndAction::Nothing, Reply::System),
        }
    }

    /// Follows the content's wish to have the pointer captured, after an event.
    pub fn sync_capture(&mut self, active: bool) -> (r: Option<HostStep>)
        ensures
            *final(self) == (WndState { capturing: active, ..*old(self) }),
            r == capture_change(old(self).capturing, active),
    {
        let was = self.capturing;
        self.capturing = active;
        if active && !was {
            Some(HostStep::SetCapture)
        } else if !active && was {
            Some(HostStep::ReleaseCapture)
        } else {
            None
        }
    }
}

/// What is done for a message without a window state: what concerns the system and the other
/// windows. There is no content that would take part.
pub open spec fn stateless_action(msg: u32, wparam: u64) -> WndAction {
    if msg == WM_NCCREATE {
        WndAction::Bind
    } else if msg == WM_PAINT {
        WndAction::Broadcast
    } else if msg == WM_DPICHANGED {
        WndAction::DpiChanged { dpi: lo(wparam) }
    } else if msg == WM_TOUCH {
        touch_action(lo(wparam))
    } else if msg == WM_DROPFILES {
        WndAction::Drop
    } else if msg == WM_DESTROY {
        WndAction::Destroyed
    } else {
        WndAction::Nothing
    }
}

/// A message to a window whose state is not attached: before its creation is through, and after
/// it was destroyed. The window still follows a change of resolution, a touch is read and a drop
/// ended; the content's part is left out.
pub fn message_without_state(msg: u32, wparam: u64) -> (r: Outcome)
    ensures
        r == does(
            stateless_action(msg, wparam),
            if stateless_zero(msg) { Reply::Zero } else { Reply::System },
        ),
{
    let reply = match msg {
        WM_PAINT => Reply::Zero,
        WM_SIZE => Reply::Zero,
        WM_MOUSEMOVE => Reply::Zero,
        WM_MOUSELEAVE => Reply::Zero,
        WM_LBUTTONDOWN => Reply::Zero,
        WM_LBUTTONUP => Reply::Zero,
        WM_RBUTTONDOWN => Reply::Zero,
        WM_RBUTTONUP => Reply::Zero,
        WM_MOUSEWHEEL => Reply::Zero,
        WM_KEYDOWN => Reply::Zero,
        WM_CHAR => Reply::Zero,
        WM_CAPTURECHANGED => Reply::Zero,
        WM_DPICHANGED => Reply::Zero,
        WM_TOUCH => Reply::Zero,
        WM_DROPFILES => Reply::Zero,
        WM_TIMER => Reply::Zero,
        WM_CLOSE => Reply::Zero,
        WM_DESTROY => Reply::Zero,
        _ => Reply::System,
    };
    let action = match msg {
        WM_NCCREATE => WndAction::Bind,
        WM_PAINT => WndAction::Broadcast,
        WM_DPICHANGED => WndAction::DpiChanged { dpi: lo_of(wparam) },
        WM_TOUCH => read_touch(lo_of(wparam)),
        WM_DROPFILES => WndAction::Drop,
        WM_DESTROY => WndAction::Destroyed,
        _ => WndAction::Nothing,
    };
    done(action, reply)
}

/// The messages that are answered with zero even without a window state.
pub open spec fn stateless_zero(msg: u32) -> bool {
    ||| msg == WM_PAINT
    ||| msg == WM_SIZE
    ||| msg == WM_MOUSEMOVE
    ||| msg == WM_MOUSELEAVE
    ||| msg == WM_LBUTTONDOWN
    ||| msg == WM_LBUTTONUP
    ||| msg == WM_RBUTTONDOWN
    ||| msg == WM_RBUTTONUP
    ||| msg == WM_MOUSEWHEEL
    ||| msg == WM_KEYDOWN
    ||| msg == WM_CHAR
    ||| msg == WM_CAPTURECHANGED
    ||| msg == WM_DPICHANGED
    ||| msg == WM_TOUCH
    ||| msg == WM_DROPFILES
    ||| msg == WM_TIMER
    ||| msg == WM_CLOSE
    ||| msg == WM_DESTROY
}

/// One thing for the host to do after the content has handled an event.
#[derive(Clone, Copy, Debug, PartialEq, Eq, Structural)]
pub enum HostStep {
    /// Mark the window for painting.
    Invalidate,
    SetCapture,
    ReleaseCapture,
    /// Carry out what the content asked of the window, the hot keys and other windows.
    WindowOps,
    /// Open the dialog that the content asked for.
    Dialog,
    Destroy,
    /// Ask the content whether the window is to close, and destroy it if so.
    CloseIfWanted,
}

/// The change that a wish for capture makes.
pub open spec fn capture_change(was: bool, active: bool) -> Option<HostStep> {
    if active && !was {
        Some(HostStep::SetCapture)
    } else if !active && was {
        Some(HostStep::ReleaseCapture)
    } else {
        None
    }
}

/// What the host does after an event.
pub open spec fn steps_after(repaint: bool, capture: Option<HostStep>, close: bool) -> Seq<HostStep> {
    (if repaint { seq![HostStep::Invalidate] } else { Seq::empty() }) + (match capture {
        Some(c) => seq![c],
        None => Seq::empty(),
    }) + seq![HostStep::WindowOps, HostStep::Dialog] + (if close {
        seq![HostStep::Destroy]
    } else {
        Seq::empty()
    })
}

/// What the host does after the content has handled the pointer or a key: a repaint, the capture,
/// what the content asked for, and, last of all, the end of the window. `close` is what the content
/// said right after the event.
pub fn after_event(repaint: bool, capture: Option<HostStep>, close: bool) -> (r: Vec<HostStep>)
    ensures
        r@ == steps_after(repaint, capture, close),
{
    let mut out: Vec<HostStep> = Vec::new();
    if repaint {
        out.push(HostStep::Invalidate);
    }
    if let Some(c) = capture {
        out.push(c);
    }
    out.push(HostStep::WindowOps);
    out.push(HostStep::Dialog);
    if close {
        out.push(HostStep::Destroy);
    }
    assert(out@ =~= steps_after(repaint, capture, close));
    out
}

/// What the host does after a frame: what callbacks asked for while it was drawn. Whether the window
/// is to close is asked when the dialog is over.
pub fn after_paint() -> (r: Vec<HostStep>)
    ensures
        r@ == seq![HostStep::WindowOps, HostStep::Dialog, HostStep::CloseIfWanted],
{
    let mut out: Vec<HostStep> = Vec::new();
    out.push(HostStep::WindowOps);
    out.push(HostStep::Dialog);
    out.push(HostStep::CloseIfWanted);
    assert(out@ =~= seq![HostStep::WindowOps, HostStep::Dialog, HostStep::CloseIfWanted]);
    out
}

/// What the host does after a drop: nothing where no path reached the content. A drop declares no
/// window operation, and whether the window is to close is asked when the dialog is over.
pub fn after_drop(delivered: bool, repaint: bool) -> (r: Vec<HostStep>)
    ensures
        r@ == (if !delivered {
            Seq::empty()
        } else {
            (if repaint { seq![HostStep::Invalidate] } else { Seq::empty() })
                + seq![HostStep::Dialog, HostStep::CloseIfWanted]
        }),
{
    let mut out: Vec<HostStep> = Vec::new();
    if !delivered {
        return out;
    }
    if repaint {
        out.push(HostStep::Invalidate);
    }
    out.push(HostStep::Dialog);
    out.push(HostStep::CloseIfWanted);
    assert(out@ =~= (if repaint { seq![HostStep::Invalidate] } else { Seq::empty() })
        + seq![HostStep::Dialog, HostStep::CloseIfWanted]);
    out
}

/// What the host does when the content has answered a request to close.
pub fn close_answered(allow: bool) -> (r: Vec<HostStep>)
    ensures
        r@ == (if allow {
            seq![HostStep::Destroy]
        } else {
            seq![HostStep::Invalidate, HostStep::WindowOps, HostStep::Dialog]
        }),
{
    let mut out: Vec<HostStep> = Vec::new();
    if allow {
        out.push(HostStep::Destroy);
        assert(out@ =~= seq![HostStep::Destroy]);
    } else {
        out.push(HostStep::Invalidate);
        out.push(HostStep::WindowOps);
        out.push(HostStep::Dialog);
        assert(out@ =~= seq![HostStep::Invalidate, HostStep::WindowOps, HostStep::Dialog]);
    }
    out
}

/// A message to the application's hidden window.
#[derive(Clone, Copy, Debug, PartialEq, Eq, Structural)]
pub enum HostMessage {
    Bind,
    /// Repaint every window.
    RepaintAll,
    Hotkey { id: u64 },
    TrayIcon { event: u32 },
    Destroyed,
    System,
}

pub fn host_message(msg: u32, wparam: u64, lparam: u64) -> (r: HostMessage)
    ensures
        r == (if msg == WM_NCCREATE {
            HostMessage::Bind
        } else if msg == WM_APP_WAKE {
            HostMessage::RepaintAll
        } else if msg == WM_HOTKEY {
            HostMessage::Hotkey { id: wparam }
        } else if msg == WM_TRAYICON {
            HostMessage::TrayIcon { event: (lparam % 0x1_0000_0000) as u32 }
        } else if msg == WM_DESTROY {
            HostMessage::Destroyed
        } else {
            HostMessage::System
        }),
        r is RepaintAll <==> msg == 0x8002,
        r is TrayIcon <==> msg == 0x8001,
        r is Hotkey <==> msg == 0x312,
        r matches HostMessage::Hotkey { id } ==> id == wparam,
        r matches HostMessage::TrayIcon { event } ==> event == lparam % 0x1_0000_0000,
{
    match msg {
        WM_NCCREATE => HostMessage::Bind,
        WM_APP_WAKE => HostMessage::RepaintAll,
        WM_HOTKEY => HostMessage::Hotkey { id: wparam },
        WM_TRAYICON => HostMessage::TrayIcon { event: (lparam % 0x1_0000_0000) as u32 },
        WM_DESTROY => HostMessage::Destroyed,
        _ => HostMessage::System,
    }
}

/// No message of a touch reaches the content as a mouse event: whatever mouse message carries
/// the mark of a touch, no pointer event comes of it and no click is counted.
pub proof fn touches_are_not_mouse_events(
    s: WndState,
    msg: u32,
    wparam: u64,
    lparam: u64,
    a: Ambient,
)
    requires
        from_touch(a.extra),
        msg == WM_MOUSEMOVE || msg == WM_LBUTTONDOWN || msg == WM_LBUTTONUP || msg == WM_RBUTTONDOWN
            || msg == WM_RBUTTONUP,
    ensures
        message_outcome(s, msg, wparam, lparam, a).1.action == WndAction::Nothing,
        message_outcome(s, msg, wparam, lparam, a).0.last_click == s.last_click,
{
}

/// Leaving is asked for once per visit: between two departures of the pointer, only the first
/// move asks.
pub proof fn leaving_is_tracked_once(
    s: WndState,
    w1: u64,
    l1: u64,
    a1: Ambient,
    w2: u64,
    l2: u64,
    a2: Ambient,
)
    ensures
        ({
            let (s1, o1) = message_outcome(s, WM_MOUSEMOVE, w1, l1, a1);
            let (s2, o2) = message_outcome(s1, WM_MOUSEMOVE, w2, l2, a2);
            let (s3, o3) = message_outcome(s2, WM_MOUSELEAVE, w1, l1, a1);
            let (s4, o4) = message_outcome(s3, WM_MOUSEMOVE, w2, l2, a2);
            &&& o1.track_leave == !s.mouse_tracked
            &&& !o2.track_leave
            &&& o4.track_leave
        }),
{
}

/// Capture follows the content: whatever the window held before, afterwards it holds the capture
/// exactly when the content wants it, and losing it to someone else is told once.
pub proof fn a_lost_capture_is_told_once(s: WndState, w: u64, l: u64, a: Ambient)
    ensures
        ({
            let (s1, o1) = message_outcome(s, WM_CAPTURECHANGED, w, l, a);
            let (s2, o2) = message_outcome(s1, WM_CAPTURECHANGED, w, l, a);
            &&& (o1.action == WndAction::CaptureLost) == s.capturing
            &&& o2.action == WndAction::Nothing
            &&& !s1.capturing
        }),
{
}

/// Sixteen bits as a number between 0 and 65535.
pub open spec fn packed(v: i16) -> int {
    if v < 0 { v + 0x1_0000 } else { v as int }
}

/// A number of a message that holds a column in its low sixteen bits and a row in the sixteen
/// above them.
pub open spec fn holds_place(lparam: u64, x: i16, y: i16) -> bool {
    lparam % 0x1_0000_0000 == packed(y) * 0x1_0000 + packed(x)
}

/// A pair of sixteen-bit numbers reads back, each with its sign.
pub proof fn places_read_back(lparam: u64, x: i16, y: i16)
    requires
        holds_place(lparam, x, y),
    ensures
        signed(lo(lparam)) == x,
        signed(hi(lparam)) == y,
        lo(lparam) == packed(x),
        hi(lparam) == packed(y),
{
    let low = lparam % 0x1_0000_0000;
    assert(lparam % 0x1_0000 == low % 0x1_0000);
    assert(lparam / 0x1_0000 % 0x1_0000 == low / 0x1_0000);
}

/// The mouse: a move, and each press and release of the left and of the right button, reaches the
/// content at the place that the message holds, as what it is. Only a press counts clicks.
pub proof fn mouse_events_keep_their_place(
    s: WndState,
    msg: u32,
    wparam: u64,
    lparam: u64,
    a: Ambient,
    x: i16,
    y: i16,
)
    requires
        holds_place(lparam, x, y),
        !from_touch(a.extra),
        0x200 <= msg <= 0x205,
        msg != 0x203,
    ensures
        ({
            let (after, out) = message_outcome(s, msg, wparam, lparam, a);
            let press = msg == 0x201 || msg == 0x204;
            &&& out.reply is Zero
            &&& out.action matches WndAction::Pointer(ev) && {
                &&& ev.x == x && ev.y == y
                &&& msg == 0x200 <==> ev.kind == PointerKind::Move
                &&& press <==> ev.kind == PointerKind::Down
                &&& msg == 0x202 || msg == 0x205 <==> ev.kind == PointerKind::Up
                &&& msg == 0x204 || msg == 0x205 <==> ev.button == MouseButton::Right
                &&& ev.button != MouseButton::Middle
                &&& ev.click_count == (if press { after.last_click.count as int } else { 1 })
            }
            &&& !press ==> after.last_click == s.last_click
            &&& press ==> after.last_click.x == x && after.last_click.y == y
                && after.last_click.time_ms == a.time
            &&& after == (WndState {
                last_click: after.last_click,
                mouse_tracked: after.mouse_tracked,
                ..s
            })
            &&& after.mouse_tracked == (s.mouse_tracked || msg == 0x200)
            &&& out.track_leave == (msg == 0x200 && !s.mouse_tracked)
        }),
{
    places_read_back(lparam, x, y);
}

/// The wheel and the moves outside of the content hold a place on the screen; the wheel also
/// holds how far it was turned, away from the user or towards them.
pub proof fn screen_events_keep_their_place(
    s: WndState,
    wparam: u64,
    lparam: u64,
    a: Ambient,
    x: i16,
    y: i16,
    keys: i16,
    delta: i16,
)
    requires
        holds_place(lparam, x, y),
        holds_place(wparam, keys, delta),
    ensures
        message_outcome(s, 0x20A, wparam, lparam, a).1.action matches WndAction::ScreenPointer(ev)
            && ev.x == x && ev.y == y && ev.kind == PointerKind::Wheel(delta as i32),
        message_outcome(s, 0xA0, wparam, lparam, a).1.action matches WndAction::ScreenPointer(ev)
            && ev.x == x && ev.y == y && ev.kind == PointerKind::Move,
        message_outcome(s, 0x20A, wparam, lparam, a).0 == s,
        message_outcome(s, 0xA0, wparam, lparam, a).0 == s,
        s.frameless ==> message_outcome(s, 0x84, wparam, lparam, a).1.action == (
        WndAction::NcHitTest { sx: x as i32, sy: y as i32 }),
        !s.frameless ==> message_outcome(s, 0x84, wparam, lparam, a).1 == does(
            WndAction::Nothing,
            Reply::System,
        ),
{
    places_read_back(lparam, x, y);
    places_read_back(wparam, keys, delta);
}

/// When the pointer leaves, the content is told of a place that is no pixel of the window, and the
/// next move asks to be told again.
pub proof fn leaving_is_told(s: WndState, wparam: u64, lparam: u64, a: Ambient)
    ensures
        ({
            let (after, out) = message_outcome(s, 0x2A3, wparam, lparam, a);
            &&& out.action matches WndAction::Pointer(ev) && ev.x < 0 && ev.y < 0 && ev.kind
                == PointerKind::Move
            &&& after == (WndState { mouse_tracked: false, ..s })
            &&& message_outcome(after, 0x200, wparam, lparam, a).1.track_leave
        }),
{
}

/// A new size is taken on, width and height up to 65535; while the user drags an edge it is drawn
/// later, and a minimised window keeps what it has.
pub proof fn sizes_are_taken_on(s: WndState, wparam: u64, w: u16, h: u16, a: Ambient)
    ensures
        ({
            let lparam = (h * 0x1_0000 + w) as u64;
            let (after, out) = message_outcome(s, 0x5, wparam, lparam, a);
            &&& after == s
            &&& wparam % 0x1_0000_0000 != 1 ==> out.action == (WndAction::Resize {
                w: w as i32,
                h: h as i32,
                paint_now: !s.in_size_move,
            })
            &&& wparam % 0x1_0000_0000 == 1 ==> out.action is Nothing
        }),
        message_outcome(s, 0x231, wparam, 0, a).0 == (WndState { in_size_move: true, ..s }),
        message_outcome(s, 0x232, wparam, 0, a).0 == (WndState { in_size_move: false, ..s }),
{
    let lparam = (h * 0x1_0000 + w) as u64;
    assert(lparam == h * 0x1_0000 + w);
    assert(lparam % 0x1_0000 == w);
    assert(lparam / 0x1_0000 == h);
}

/// A key that goes down is delivered by its code, with Shift and Ctrl as they are held.
pub proof fn keys_are_delivered(s: WndState, code: u16, rest: u64, lparam: u64, a: Ambient)
    requires
        rest < 0x1_0000_0000_0000,
    ensures
        ({
            let wparam = (rest * 0x1_0000 + code) as u64;
            let (after, out) = message_outcome(s, 0x100, wparam, lparam, a);
            &&& after == s
            &&& out.reply is Zero
            &&& out.action matches WndAction::Key(ev) && ev.key == chars::key_of_vk(code)
                && ev.pressed && ev.shift == a.shift && ev.ctrl == a.ctrl && !ev.alt && !ev.meta
        }),
{
    let wparam = (rest * 0x1_0000 + code) as u64;
    assert(wparam == rest * 0x1_0000 + code);
    assert(wparam % 0x1_0000 == code);
}

/// A message changes of a window's state only what it is about: the clicks a press, the halves of
/// a character a character, the capture its loss, the tracking a visit of the pointer, and the
/// dragging of an edge its beginning and its end.
pub proof fn messages_change_only_their_own(
    s: WndState,
    msg: u32,
    wparam: u64,
    lparam: u64,
    a: Ambient,
)
    ensures
        ({
            let after = message_outcome(s, msg, wparam, lparam, a).0;
            &&& after.last_click != s.last_click ==> msg == 0x201 || msg == 0x204
            &&& after.pending_surrogate != s.pending_surrogate ==> msg == 0x102
            &&& after.capturing != s.capturing ==> msg == 0x215 && !after.capturing
            &&& after.mouse_tracked != s.mouse_tracked ==> msg == 0x200 || msg == 0x2A3
            &&& after.in_size_move != s.in_size_move ==> msg == 0x231 || msg == 0x232
            &&& after.frameless == s.frameless && after.min_w == s.min_w && after.min_h == s.min_h
            &&& after.touch == s.touch
        }),
{
}

/// Messages without a place: each asks for its own thing, by its number.
pub proof fn messages_ask_for_their_own(s: WndState, wparam: u64, lparam: u64, a: Ambient)
    ensures
        message_outcome(s, 0x81, wparam, lparam, a).1 == does(WndAction::Bind, Reply::System),
        message_outcome(s, 0xF, wparam, lparam, a).1 == does(WndAction::Paint, Reply::Zero),
        message_outcome(s, 0x10, wparam, lparam, a).1 == does(WndAction::CloseRequest, Reply::Zero),
        message_outcome(s, 0x2, wparam, lparam, a).1 == does(WndAction::Destroyed, Reply::Zero),
        message_outcome(s, 0x233, wparam, lparam, a).1 == does(WndAction::Drop, Reply::Zero),
        message_outcome(s, 0x10D, wparam, lparam, a).1 == does(WndAction::ImeStart, Reply::System),
        message_outcome(s, 0x10F, wparam, lparam, a).1 == does(WndAction::ImeMove, Reply::System),
        message_outcome(s, 0x10E, wparam, lparam, a).1 == does(WndAction::ImeEnd, Reply::System),
        message_outcome(s, 0x6, wparam, lparam, a).1 == does(
            WndAction::Activated(wparam % 0x1_0000 != 0),
            Reply::System,
        ),
        message_outcome(s, 0x2E0, wparam, lparam, a).1.action matches WndAction::DpiChanged { dpi }
            && dpi == wparam % 0x1_0000,
        wparam > 0 ==> (message_outcome(s, 0x113, wparam, lparam, a).1.action matches WndAction::Timer {
            index,
        } && index + 1 == wparam),
        message_outcome(s, 0x24, wparam, lparam, a).1 == (if s.min_w > 0 || s.min_h > 0 {
            does(WndAction::MinTrack, Reply::Zero)
        } else {
            does(WndAction::Nothing, Reply::System)
        }),
        message_outcome(s, 0x83, wparam, lparam, a).1 == (if s.frameless && wparam != 0 {
            does(WndAction::NcCalcSize, Reply::Zero)
        } else {
            does(WndAction::Nothing, Reply::System)
        }),
        message_outcome(s, 0x20, wparam, lparam, a).1 == (if lparam % 0x1_0000 == 1 {
            does(WndAction::SetCursor, Reply::One)
        } else {
            does(WndAction::Nothing, Reply::System)
        }),
{
}

/// As many touch points are read as there are, but eight at most; none asks for nothing.
pub proof fn touch_points_are_limited(n: u16)
    ensures
        n == 0 <==> touch_action(n) is Nothing,
        touch_action(n) matches WndAction::ReadTouch { points } ==> 1 <= points <= 8 && points <= n
            && (points < n ==> points == 8),
        touch_action(n) is Nothing || touch_action(n) is ReadTouch,
{
}

/// Where a window without a state is answered with zero, so is one with a state; and what is done
/// without one is what is done with one, but that there is nothing to draw.
pub proof fn a_missing_state_does_not_show(
    s: WndState,
    msg: u32,
    wparam: u64,
    lparam: u64,
    a: Ambient,
)
    ensures
        stateless_zero(msg) ==> message_outcome(s, msg, wparam, lparam, a).1.reply is Zero,
        message_outcome(s, msg, wparam, lparam, a).1.reply is Zero && !stateless_zero(msg) ==> msg
            == 0x24 || msg == 0x83,
        msg != 0xF && !(stateless_action(msg, wparam) is Nothing) ==> stateless_action(msg, wparam)
            == message_outcome(s, msg, wparam, lparam, a).1.action,
        stateless_action(0xF, wparam) is Broadcast,
{
}

/// A mark in the extra information tells the mouse messages that were made of a touch: it fills
/// the upper three of the lower four bytes.
pub proof fn touches_are_marked(high: u32, mark: u32, low: u8)
    requires
        mark < 0x100_0000,
    ensures
        from_touch((high * 0x1_0000_0000 + mark * 0x100 + low) as u64) <==> mark == 0xFF5157,
{
    let extra = (high * 0x1_0000_0000 + mark * 0x100 + low) as u64;
    assert(extra == high * 0x1_0000_0000 + mark * 0x100 + low);
    assert(extra % 0x1_0000_0000 == mark * 0x100 + low);
    assert((mark * 0x100 + low) / 0x100 == mark);
}

/// The capture is taken when the content wants it and the window has not got it, and let go when
/// it has it and the content does not want it; nothing else changes it.
pub proof fn the_capture_follows_the_wish(was: bool, active: bool)
    ensures
        capture_change(was, active) is None <==> was == active,
        capture_change(was, active) == Some(HostStep::SetCapture) <==> active && !was,
        capture_change(was, active) == Some(HostStep::ReleaseCapture) <==> was && !active,
{
}

/// After an event the window is marked for painting first, and destroyed last, where either is
/// wanted; what the content asked for comes between, window operations before the dialog.
pub proof fn the_end_of_a_window_comes_last(
    repaint: bool,
    capture: Option<HostStep>,
    close: bool,
    i: int,
)
    requires
        capture matches Some(c) ==> c is SetCapture || c is ReleaseCapture,
        0 <= i < steps_after(repaint, capture, close).len(),
    ensures
        ({
            let s = steps_after(repaint, capture, close);
            let n = s.len();
            &&& s[i] is Invalidate <==> repaint && i == 0
            &&& s[i] is Destroy <==> close && i == n - 1
            &&& s[i] is SetCapture || s[i] is ReleaseCapture ==> capture == Some(s[i])
            &&& capture is Some ==> n >= 3 && s[n - 3 - (if close { 1int } else { 0 })]
                == capture.unwrap()
            &&& s[n - 1 - (if close { 1int } else { 0 })] is Dialog
            &&& s[n - 2 - (if close { 1int } else { 0 })] is WindowOps
            &&& n == 2 + (if repaint { 1int } else { 0 }) + (if capture is Some { 1int } else { 0 }) + (
            if close {
                1int
            } else {
                0
            })
        }),
{
}

/// The buttons count their clicks each on its own: a click of one never continues that of another.
pub proof fn buttons_count_on_their_own(
    s: WndState,
    x: i16,
    y: i16,
    first: u64,
    second: u64,
    wparam: u64,
    a: Ambient,
    b: Ambient,
)
    requires
        !from_touch(a.extra),
        !from_touch(b.extra),
    ensures
        button_number(MouseButton::Left) != button_number(MouseButton::Right),
        button_number(MouseButton::Left) != button_number(MouseButton::Middle),
        button_number(MouseButton::Right) != button_number(MouseButton::Middle),
        ({
            let down = message_outcome(s, 0x201, wparam, first, a).0;
            let (after, out) = message_outcome(down, 0x204, wparam, second, b);
            after.last_click.count == 1 && (out.action matches WndAction::Pointer(ev)
                && ev.click_count == 1)
        }),
{
}

} // verus!
