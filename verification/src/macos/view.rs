//! A window's content view: what its events mean, and what the host does after them.

use super::keys;
use crate::config::{Backend, Renderer};
use crate::event::{Key, KeyEvent, MouseButton, PointerEvent, PointerKind, WindowOp};
use crate::geometry::Color;
use crate::registry::{self, LiveWindows};
use crate::surface;
use crate::text;
use vstd::prelude::*;

verus! {

/// What the view keeps of its window's input.
#[derive(Clone, Copy, Debug, PartialEq, Eq, Structural)]
pub struct ViewState {
    pub frameless: bool,
    /// An input method is composing a text.
    pub composing: bool,
    /// The content has the pointer captured.
    pub capturing: bool,
}

/// What a press of the left button does.
#[derive(Clone, Copy, Debug, PartialEq, Eq, Structural)]
pub enum Press {
    /// Drag the window.
    DragWindow,
    /// Hand the press to the content.
    Deliver,
}

/// The number of a click: as the system counts, in a byte, three at the most.
pub open spec fn click_number(clicks: int) -> int {
    let n = (if clicks < 1 { 1 } else { clicks }) % 256;
    if n > 3 { 3 } else { n }
}

/// A pointer event of the view.
pub fn pointer_event(kind: PointerKind, button: MouseButton, x: i32, y: i32, clicks: i64) -> (r:
    PointerEvent)
    ensures
        r == (PointerEvent {
            click_count: if kind == PointerKind::Down {
                click_number(clicks as int) as u32
            } else {
                1
            },
            ..PointerEvent::plain(kind, x, y, button)
        }),
{
    let mut ev = PointerEvent::single(kind, x, y, button);
    if let PointerKind::Down = kind {
        let n: i64 = if clicks < 1 { 1 } else { clicks % 256 };
        ev.click_count = if n > 3 { 3 } else { n as u32 };
    }
    ev
}

/// A key event with the modifiers that shortcuts use: Command and Control both stand for Ctrl.
pub open spec fn key_event(key: Key, shift: bool, ctrl: bool) -> KeyEvent {
    KeyEvent { key, pressed: true, shift, ctrl, alt: false, meta: false }
}

fn key_press(key: Key, shift: bool, ctrl: bool) -> (r: KeyEvent)
    ensures
        r == key_event(key, shift, ctrl),
{
    KeyEvent { key, pressed: true, shift, ctrl, alt: false, meta: false }
}

/// The events that a key press makes before any input method sees it.
pub open spec fn key_events(
    code: u16,
    shift: bool,
    modifier: bool,
    composing: bool,
    first: Option<char>,
) -> Seq<KeyEvent> {
    if composing {
        Seq::empty()
    } else {
        match keys::key_of_keycode(code) {
            Some(k) => seq![key_event(k, shift, modifier)],
            None => match first {
                Some(c) => if modifier {
                    seq![key_event(Key::Other(text::ascii_upper(c) as u32), shift, true)]
                } else {
                    Seq::empty()
                },
                None => Seq::empty(),
            },
        }
    }
}

/// The input method gets the key press: everything while it composes; otherwise what is neither a
/// special key nor a shortcut. The space bar is both a key and a character.
pub open spec fn to_input_method(code: u16, modifier: bool, composing: bool) -> bool {
    composing || (!modifier && (match keys::key_of_keycode(code) {
        Some(k) => k == Key::Space,
        None => true,
    }))
}

/// What a key press does.
pub struct KeyPlan {
    pub events: Vec<KeyEvent>,
    /// Afterwards the input method gets the press.
    pub to_ime: bool,
}

/// One thing for the host to do after an event.
#[derive(Clone, Copy, Debug, PartialEq, Eq, Structural)]
pub enum ViewStep {
    /// Apply the changes to hot keys.
    Hotkeys,
    Window(WindowOp),
    /// Run the dialog, then draw again.
    Dialog,
    OpenWindows,
    Cursor,
    Close,
    /// Draw the other windows again if a shared value changed.
    Broadcast,
    /// Draw this window again.
    Redraw,
    OrderOut,
}

/// What the host does after an event, in order.
pub open spec fn steps_after(op: Option<WindowOp>, dialog: bool, close: bool) -> Seq<ViewStep> {
    seq![ViewStep::Hotkeys] + (match op {
        Some(o) => seq![ViewStep::Window(o)],
        None => Seq::empty(),
    }) + (if dialog { seq![ViewStep::Dialog] } else { Seq::empty() })
        + seq![ViewStep::OpenWindows, ViewStep::Cursor] + (if close {
        seq![ViewStep::Close]
    } else {
        Seq::empty()
    }) + seq![ViewStep::Broadcast]
}

/// What the host does after an event.
pub fn after_event(op: Option<WindowOp>, dialog: bool, close: bool) -> (r: Vec<ViewStep>)
    ensures
        r@ == steps_after(op, dialog, close),
{
    let mut out: Vec<ViewStep> = Vec::new();
    out.push(ViewStep::Hotkeys);
    if let Some(o) = op {
        out.push(ViewStep::Window(o));
    }
    if dialog {
        out.push(ViewStep::Dialog);
    }
    out.push(ViewStep::OpenWindows);
    out.push(ViewStep::Cursor);
    if close {
        out.push(ViewStep::Close);
    }
    out.push(ViewStep::Broadcast);
    assert(out@ =~= steps_after(op, dialog, close));
    out
}

/// What the host does when the content has answered a request to close: nothing where it agrees.
/// Otherwise the window is drawn again, hidden where that was asked for, and a dialog is run;
/// other window operations are dropped.
pub fn close_answered(allow: bool, op: Option<WindowOp>, dialog: bool) -> (r: Vec<ViewStep>)
    ensures
        r@ == (if allow {
            Seq::empty()
        } else {
            seq![ViewStep::Redraw] + (if op == Some(WindowOp::Hide) {
                seq![ViewStep::OrderOut]
            } else {
                Seq::empty()
            }) + (if dialog { seq![ViewStep::Dialog] } else { Seq::empty() })
        }),
{
    let mut out: Vec<ViewStep> = Vec::new();
    if allow {
        return out;
    }
    out.push(ViewStep::Redraw);
    if let Some(WindowOp::Hide) = op {
        out.push(ViewStep::OrderOut);
    }
    if dialog {
        out.push(ViewStep::Dialog);
    }
    assert(out@ =~= seq![ViewStep::Redraw] + (if op == Some(WindowOp::Hide) {
        seq![ViewStep::OrderOut]
    } else {
        Seq::empty()
    }) + (if dialog { seq![ViewStep::Dialog] } else { Seq::empty() }));
    out
}

/// What losing the keyboard takes.
#[derive(Clone, Copy, Debug, PartialEq, Eq, Structural)]
pub struct Resigned {
    /// Tell the content that it lost the pointer.
    pub capture_lost: bool,
    /// Tell the content that composing is over, and drop the input method's text.
    pub discard_text: bool,
}

/// The characters that an input method committed, as events; control characters are dropped.
pub open spec fn committed(s: Seq<char>) -> Seq<KeyEvent>
    decreases s.len(),
{
    if s.len() == 0 {
        Seq::empty()
    } else {
        let before = committed(s.drop_last());
        if text::control(s.last()) {
            before
        } else {
            before.push(key_event(Key::Char(s.last()), false, false))
        }
    }
}

impl ViewState {
    pub fn new(frameless: bool) -> (r: ViewState)
        ensures
            r == (ViewState { frameless, composing: false, capturing: false }),
    {
        ViewState { frameless, composing: false, capturing: false }
    }

    /// A press of the left button. A frameless window is dragged by its drag areas, but not by a
    /// control that lies in one.
    pub fn on_press(&self, drag: bool, interactive: bool) -> (r: Press)
        ensures
            r == (if self.frameless && drag && !interactive {
                Press::DragWindow
            } else {
                Press::Deliver
            }),
    {
        if self.frameless && drag && !interactive {
            Press::DragWindow
        } else {
            Press::Deliver
        }
    }

    /// A key press; `first` is the first character that it makes without modifiers.
    pub fn on_key(
        &self,
        code: u16,
        shift: bool,
        command: bool,
        control: bool,
        first: Option<char>,
    ) -> (r: KeyPlan)
        ensures
            r.events@ == key_events(code, shift, command || control, self.composing, first),
            r.to_ime == to_input_method(code, command || control, self.composing),
    {
        let mut events: Vec<KeyEvent> = Vec::new();
        if self.composing {
            return KeyPlan { events, to_ime: true };
        }
        let modifier = command || control;
        match keys::map_special(code) {
            Some(k) => {
                events.push(key_press(k, shift, modifier));
                assert(events@ =~= seq![key_event(k, shift, modifier)]);
                let space = matches!(k, Key::Space);
                KeyPlan { events, to_ime: space && !modifier }
            },
            None => {
                if modifier {
                    if let Some(c) = first {
                        let up: u32 = text::to_ascii_upper(c) as u32;
                        events.push(key_press(Key::Other(up), shift, true));
                        assert(events@ =~= seq![
                            key_event(Key::Other(text::ascii_upper(c) as u32), shift, true),
                        ]);
                    }
                    return KeyPlan { events, to_ime: false };
                }
                KeyPlan { events, to_ime: true }
            },
        }
    }

    /// The input method changed its text: composing goes on while there is any.
    pub fn set_marked_text(&mut self, s: &str) -> (r: bool)
        ensures
            r == (s@.len() > 0),
            *final(self) == (ViewState { composing: r, ..*old(self) }),
    {
        self.composing = !s.is_empty();
        self.composing
    }

    /// The input method dropped its text.
    pub fn unmark_text(&mut self)
        ensures
            *final(self) == (ViewState { composing: false, ..*old(self) }),
    {
        self.composing = false;
    }

    /// The input method committed a text.
    pub fn ime_insert(&mut self, s: &str) -> (r: Vec<KeyEvent>)
        ensures
            *final(self) == (ViewState { composing: false, ..*old(self) }),
            r@ == committed(s@),
    {
        self.composing = false;
        let mut out: Vec<KeyEvent> = Vec::new();
        let ghost all = s@;
        for c in it: s.chars()
            invariant
                it.seq() == all,
                out@ == committed(all.take(it.index() as int)),
        {
            assert(all.take(it.index() + 1).drop_last() =~= all.take(it.index() as int));
            if !text::is_control(c) {
                out.push(key_press(Key::Char(c), false, false));
            }
        }
        assert(all.take(all.len() as int) =~= all);
        out
    }

    /// The content has handled a pointer event.
    pub fn pointer_done(&mut self, capture_active: bool)
        ensures
            *final(self) == (ViewState { capturing: capture_active, ..*old(self) }),
    {
        self.capturing = capture_active;
    }

    /// The window lost the keyboard.
    pub fn resign_key(&mut self) -> (r: Resigned)
        ensures
            r == (Resigned {
                capture_lost: old(self).capturing,
                discard_text: old(self).composing,
            }),
            *final(self) == (ViewState { composing: false, capturing: false, ..*old(self) }),
    {
        let r = Resigned { capture_lost: self.capturing, discard_text: self.composing };
        self.capturing = false;
        self.composing = false;
        r
    }
}

/// A shortcut is never typed: with Command or Control held and nothing being composed, a key press
/// makes at most one event, no character, and the input method does not get it.
pub proof fn shortcuts_do_not_type(code: u16, shift: bool, first: Option<char>)
    ensures
        ({
            let e = key_events(code, shift, true, false, first);
            &&& e.len() <= 1
            &&& forall|i: int| 0 <= i < e.len() ==> !((#[trigger] e[i]).key is Char) && e[i].ctrl
            &&& !to_input_method(code, true, false)
        }),
{
    if let Some(k) = keys::key_of_keycode(code) {
        assert(!(k is Char));
    }
}

/// While an input method composes it gets every key, and the content none.
pub proof fn composing_keeps_the_keys(code: u16, shift: bool, modifier: bool, first: Option<char>)
    ensures
        key_events(code, shift, modifier, true, first).len() == 0,
        to_input_method(code, modifier, true),
{
}

/// A frame is to be scheduled: the content moves and the window can be seen.
pub fn schedules_frame(wants_animation: bool, has_window: bool, visible: bool, miniaturized: bool) -> (r:
    bool)
    ensures
        r == (wants_animation && (!has_window || (visible && !miniaturized))),
{
    wants_animation && (!has_window || (visible && !miniaturized))
}

/// The frames per second of a screen: sixty where it does not say, within sixty and 240.
pub fn frames_per_second(maximum: Option<i64>) -> (r: i64)
    ensures
        r == (match maximum {
            None => 60,
            Some(f) => if f < 60 {
                60
            } else if f > 240 {
                240
            } else {
                f
            },
        }),
        60 <= r <= 240,
{
    match maximum {
        None => 60,
        Some(f) => if f < 60 {
            60
        } else if f > 240 {
            240
        } else {
            f
        },
    }
}

/// The buffer that a frame is drawn into.
pub struct Buffer {
    pub pixmap: Option<tiny_skia::Pixmap>,
    pub w: i32,
    pub h: i32,
}

/// A length of at least one.
pub open spec fn at_least_one(n: i32) -> i32 {
    if n < 1 { 1 } else { n }
}

impl Buffer {
    /// The buffer has the size that is noted.
    pub open spec fn wf(self) -> bool {
        self.pixmap matches Some(p) ==> {
            &&& surface::pixmap_width(p) == self.w
            &&& surface::pixmap_height(p) == self.h
            &&& surface::pixmap_bytes(p).len() == self.w * self.h * 4
        }
    }

    pub fn new() -> (r: Buffer)
        ensures
            r.wf(),
            r == (Buffer { pixmap: None, w: 0, h: 0 }),
    {
        Buffer { pixmap: None, w: 0, h: 0 }
    }

    /// Makes sure of a buffer of this size, at least one pixel each way; one that fits stays, and
    /// a new one is transparent.
    pub fn ensure_pixmap(&mut self, w: i32, h: i32)
        requires
            old(self).wf(),
            at_least_one(w) * 4 <= i32::MAX,
            surface::addressable(at_least_one(w) as int, at_least_one(h) as int),
        ensures
            final(self).wf(),
            final(self).pixmap is Some,
            final(self).w == at_least_one(w) && final(self).h == at_least_one(h),
            old(self).pixmap is Some && old(self).w == at_least_one(w) && old(self).h
                == at_least_one(h) ==> *final(self) == *old(self),
            !(old(self).pixmap is Some && old(self).w == at_least_one(w) && old(self).h
                == at_least_one(h)) ==> surface::pixmap_bytes(final(self).pixmap.unwrap())
                == Seq::new((at_least_one(w) * at_least_one(h) * 4) as nat, |i: int| 0u8),
    {
        let w: i32 = if w < 1 { 1 } else { w };
        let h: i32 = if h < 1 { 1 } else { h };
        if self.w == w && self.h == h && self.pixmap.is_some() {
            return;
        }
        self.pixmap = surface::new_pixmap(w as u32, h as u32);
        self.w = w;
        self.h = h;
    }

    /// Prepares a frame: a buffer of this size, all of it in the background colour.
    pub fn begin_frame(&mut self, w: i32, h: i32, bg: Color)
        requires
            old(self).wf(),
            at_least_one(w) * 4 <= i32::MAX,
            surface::addressable(at_least_one(w) as int, at_least_one(h) as int),
        ensures
            final(self).wf(),
            final(self).w == at_least_one(w) && final(self).h == at_least_one(h),
            final(self).pixmap matches Some(p) && surface::pixmap_bytes(p) == surface::one_colour(
                (at_least_one(w) * at_least_one(h) * 4) as nat,
                bg,
            ),
    {
        self.ensure_pixmap(w, h);
        match &mut self.pixmap {
            Some(p) => surface::clear(p, bg),
            None => {},
        }
    }
}

/// The GPU is wanted: as the variable says where it is set, where an empty one and `0` mean no;
/// else as the renderer says.
pub open spec fn wants(renderer: Renderer, v: Option<Seq<char>>) -> bool {
    match v {
        None => renderer.tries_gpu(),
        Some(s) => s.len() > 0 && s != seq!['0'],
    }
}

pub fn wants_gpu(renderer: Renderer, v: Option<&str>) -> (r: bool)
    ensures
        r == wants(
            renderer,
            match v {
                Some(s) => Some(s@),
                None => None,
            },
        ),
{
    match v {
        None => renderer.wants_gpu(),
        Some(s) => !s.is_empty() && !text::is_char(s, '0'),
    }
}

/// The renderer of a window: the GPU where it is wanted and both the device and the surface could
/// be made. Where it was demanded and is not to be had, that is an error, also where the variable
/// forbids it.
pub fn attach_gpu(renderer: Renderer, wanted: bool, device: bool, surface_made: bool) -> (r: Backend)
    ensures
        r == (if wanted && device && surface_made {
            Backend::Gpu
        } else if renderer is Gpu {
            Backend::Unavailable
        } else {
            (Backend::Software { fell_back: wanted })
        }),
        r is Gpu ==> wanted && device && surface_made,
        renderer is Gpu ==> !(r is Software),
        !(renderer is Gpu) ==> !(r is Unavailable),
        !wanted ==> !(r is Gpu),
{
    if wanted && device && surface_made {
        Backend::Gpu
    } else if renderer.requires_gpu() {
        Backend::Unavailable
    } else {
        Backend::Software { fell_back: wanted }
    }
}

/// Why a GPU frame could not be drawn.
#[derive(Clone, Copy, Debug, PartialEq, Eq, Structural)]
pub enum FrameError {
    /// The surface was not ready.
    Skipped,
    /// Nobody sees the window.
    Occluded,
    Lost,
}

/// A frame that was not drawn is tried again at once where the surface was just not ready. A
/// window that nobody sees is drawn when it appears.
pub fn retries(e: FrameError) -> (r: bool)
    ensures
        r == (e is Skipped),
{
    matches!(e, FrameError::Skipped)
}

pub const STYLE_TITLED: u64 = 1;

pub const STYLE_CLOSABLE: u64 = 2;

pub const STYLE_MINIATURIZABLE: u64 = 4;

pub const STYLE_RESIZABLE: u64 = 8;

pub const STYLE_FULL_SIZE_CONTENT: u64 = 0x8000;

/// How a window is made.
#[derive(Clone, Copy, Debug, PartialEq, Eq, Structural)]
pub struct WindowPlan {
    pub style: u64,
    pub min_size: Option<MinSize>,
    /// Hide the title bar and its buttons.
    pub hide_title: bool,
}

#[derive(Clone, Copy, Debug, PartialEq, Eq, Structural)]
pub struct MinSize {
    pub w: i32,
    pub h: i32,
}

pub fn plan_window(resizable: bool, frameless: bool, min_w: i32, min_h: i32) -> (r: WindowPlan)
    ensures
        r.style == STYLE_TITLED + STYLE_CLOSABLE + STYLE_MINIATURIZABLE + (if resizable {
            STYLE_RESIZABLE as int
        } else {
            0
        }) + (if frameless { STYLE_FULL_SIZE_CONTENT as int } else { 0 }),
        r.hide_title == frameless,
        r.min_size == (if min_w > 0 || min_h > 0 {
            Some(
                MinSize {
                    w: if min_w < 0 { 0 } else { min_w },
                    h: if min_h < 0 { 0 } else { min_h },
                },
            )
        } else {
            None
        }),
{
    let mut style: u64 = STYLE_TITLED + STYLE_CLOSABLE + STYLE_MINIATURIZABLE;
    if resizable {
        style = style + STYLE_RESIZABLE;
    }
    if frameless {
        style = style + STYLE_FULL_SIZE_CONTENT;
    }
    let min_size = if min_w > 0 || min_h > 0 {
        Some(
            MinSize {
                w: if min_w < 0 { 0 } else { min_w },
                h: if min_h < 0 { 0 } else { min_h },
            },
        )
    } else {
        None
    };
    WindowPlan { style, min_size, hide_title: frameless }
}

/// One thing that a window operation takes.
#[derive(Clone, Copy, Debug, PartialEq, Eq, Structural)]
pub enum WindowStep {
    Miniaturize,
    Deminiaturize,
    Zoom,
    /// Bring the window to the front and the application with it.
    Front,
    OrderOut,
    /// Tell the content that the window is there again.
    NotifyShown,
    /// Schedule a frame, where the content moves.
    NextFrame,
}

pub open spec fn shown_and_activated(visible: bool, miniaturized: bool) -> Seq<WindowStep> {
    (if miniaturized { seq![WindowStep::Deminiaturize] } else { Seq::empty() })
        + seq![WindowStep::Front] + (if visible {
        Seq::empty()
    } else {
        seq![WindowStep::NotifyShown]
    }) + seq![WindowStep::NextFrame]
}

/// Showing a window and bringing it to the front.
pub fn show_and_activate(visible: bool, miniaturized: bool) -> (r: Vec<WindowStep>)
    ensures
        r@ == shown_and_activated(visible, miniaturized),
{
    let mut out: Vec<WindowStep> = Vec::new();
    if miniaturized {
        out.push(WindowStep::Deminiaturize);
    }
    out.push(WindowStep::Front);
    if !visible {
        out.push(WindowStep::NotifyShown);
    }
    out.push(WindowStep::NextFrame);
    assert(out@ =~= shown_and_activated(visible, miniaturized));
    out
}

/// Bringing a window with a key that is open already to the front.
pub fn focus_window(miniaturized: bool) -> (r: Vec<WindowStep>)
    ensures
        r@ == (if miniaturized {
            seq![WindowStep::Deminiaturize, WindowStep::Front]
        } else {
            seq![WindowStep::Front]
        }),
{
    let mut out: Vec<WindowStep> = Vec::new();
    if miniaturized {
        out.push(WindowStep::Deminiaturize);
    }
    out.push(WindowStep::Front);
    assert(out@ =~= if miniaturized {
        seq![WindowStep::Deminiaturize, WindowStep::Front]
    } else {
        seq![WindowStep::Front]
    });
    out
}

/// What a window operation takes. Zooming is the system's own toggle; a window that is to be
/// maximized or restored is zoomed where it is not so already.
pub fn window_op(op: WindowOp, zoomed: bool, visible: bool, miniaturized: bool) -> (r: Vec<
    WindowStep,
>)
    ensures
        r@ == (match op {
            WindowOp::Minimize => seq![WindowStep::Miniaturize],
            WindowOp::ToggleMaximize => seq![WindowStep::Zoom],
            WindowOp::Maximize => if zoomed { Seq::empty() } else { seq![WindowStep::Zoom] },
            WindowOp::Restore => if zoomed { seq![WindowStep::Zoom] } else { Seq::empty() },
            WindowOp::Show => shown_and_activated(visible, miniaturized),
            WindowOp::Hide => seq![WindowStep::OrderOut],
        }),
        op is Maximize ==> (r@.len() == 1 <==> !zoomed),
        op is Restore ==> (r@.len() == 1 <==> zoomed),
        op is ToggleMaximize || op is Minimize || op is Hide ==> r@.len() == 1,
{
    let mut out: Vec<WindowStep> = Vec::new();
    match op {
        WindowOp::Show => return show_and_activate(visible, miniaturized),
        WindowOp::Minimize => {
            out.push(WindowStep::Miniaturize);
            assert(out@ =~= seq![WindowStep::Miniaturize]);
        },
        WindowOp::ToggleMaximize => {
            out.push(WindowStep::Zoom);
            assert(out@ =~= seq![WindowStep::Zoom]);
        },
        WindowOp::Maximize => if !zoomed {
            out.push(WindowStep::Zoom);
            assert(out@ =~= seq![WindowStep::Zoom]);
        },
        WindowOp::Restore => if zoomed {
            out.push(WindowStep::Zoom);
            assert(out@ =~= seq![WindowStep::Zoom]);
        },
        WindowOp::Hide => {
            out.push(WindowStep::OrderOut);
            assert(out@ =~= seq![WindowStep::OrderOut]);
        },
    }
    out
}

/// The windows of the application. One that closes is kept until the event that closed it is
/// over: its own methods are still running.
pub struct MacWindows {
    pub live: LiveWindows,
    pub closed: Vec<isize>,
    pub terminating: bool,
}

/// What the host does when a window closes.
#[derive(Clone, Copy, Debug, PartialEq, Eq, Structural)]
pub enum Closing {
    /// The application is ending anyway.
    Nothing,
    /// Stop the timers and drop the content; free the window when the event is over.
    Release,
    /// The same, and end the application: it was the last window.
    ReleaseAndTerminate,
}

impl MacWindows {
    pub fn new() -> (r: MacWindows)
        ensures
            r.live.wf(),
            r.live.wins@.len() == 0,
            r.closed@ == Seq::<isize>::empty(),
            !r.terminating,
    {
        MacWindows { live: LiveWindows::new(), closed: Vec::new(), terminating: false }
    }

    /// A window is about to close.
    pub fn will_close(&mut self, win: isize) -> (r: Closing)
        requires
            old(self).live.wf(),
        ensures
            final(self).live.wf(),
            old(self).terminating ==> r == Closing::Nothing && *final(self) == *old(self),
            !old(self).terminating ==> {
                &&& final(self).live.wins@ == registry::without(old(self).live.wins@, win)
                &&& final(self).closed@ == (if old(self).live.has(win) {
                    old(self).closed@.push(win)
                } else {
                    old(self).closed@
                })
                &&& r == (if old(self).live.has(win) && final(self).live.wins@.len() == 0 {
                    Closing::ReleaseAndTerminate
                } else {
                    Closing::Release
                })
                &&& final(self).terminating == (r == Closing::ReleaseAndTerminate)
            },
    {
        if self.terminating {
            return Closing::Nothing;
        }
        if self.live.contains(win) {
            self.closed.push(win);
        }
        if self.live.remove(win) {
            self.terminating = true;
            return Closing::ReleaseAndTerminate;
        }
        Closing::Release
    }

    /// The windows that can be freed now.
    pub fn drain_closed(&mut self) -> (r: Vec<isize>)
        ensures
            r@ == old(self).closed@,
            final(self).closed@.len() == 0,
            final(self).live == old(self).live,
            final(self).terminating == old(self).terminating,
    {
        let mut none: Vec<isize> = Vec::new();
        std::mem::swap(&mut none, &mut self.closed);
        none
    }
}

/// Clicks count from one to three: a single, a double and a triple click are what they are, and
/// more than three count as three.
pub proof fn clicks_count_to_three(clicks: int)
    ensures
        clicks == 1 || clicks == 2 || clicks == 3 ==> click_number(clicks) == clicks,
        3 < clicks < 256 ==> click_number(clicks) == 3,
        clicks < 1 ==> click_number(clicks) == 1,
        0 <= click_number(clicks) <= 3,
{
}

/// A named key is delivered once, with Shift as it is held and with Command and Control as Ctrl;
/// a shortcut by the capital of the character that its key types; and any other key is left to
/// the input method. The space bar is delivered and typed.
pub proof fn keys_are_delivered_or_typed(code: u16, shift: bool, modifier: bool, c: char)
    ensures
        ({
            let e = key_events(code, shift, modifier, false, Some(c));
            let named = keys::key_of_keycode(code);
            &&& named matches Some(k) ==> e.len() == 1 && e[0].key == k && e[0].shift == shift
                && e[0].ctrl == modifier
            &&& named is None && modifier ==> e.len() == 1 && e[0].shift == shift && e[0].ctrl
            &&& named is None && modifier && 'a' <= c <= 'z' ==> e[0].key == Key::Other(
                (c as u32 - 32) as u32,
            )
            &&& named is None && modifier && !('a' <= c <= 'z') ==> e[0].key == Key::Other(c as u32)
            &&& named is None && !modifier ==> e.len() == 0
            &&& forall|i: int|
                0 <= i < e.len() ==> (#[trigger] e[i]).pressed && !e[i].alt && !e[i].meta
            &&& to_input_method(code, modifier, false) <==> !modifier && (e.len() == 0 || e[0].key
                == Key::Space)
        }),
        key_events(code, shift, modifier, false, None).len() == (if keys::key_of_keycode(code) is Some {
            1int
        } else {
            0
        }),
{
}

/// What follows an event comes in turn: hot keys first, then what becomes of the window, a dialog,
/// new windows, the cursor, the end of the window, and last the question about the other windows.
pub proof fn things_are_done_in_turn(op: Option<WindowOp>, dialog: bool, close: bool)
    ensures
        ({
            let s = steps_after(op, dialog, close);
            let n = s.len();
            let last = if close { 1int } else { 0 };
            &&& n == 4 + (if op is Some { 1int } else { 0 }) + (if dialog { 1int } else { 0 }) + last
            &&& s[0] is Hotkeys
            &&& s[n - 1] is Broadcast
            &&& close ==> s[n - 2] is Close
            &&& s[n - 2 - last] is Cursor
            &&& s[n - 3 - last] is OpenWindows
            &&& dialog ==> s[n - 4 - last] is Dialog
            &&& op matches Some(o) ==> s[1] == ViewStep::Window(o)
        }),
{
}

/// A committed text is typed character by character, in its order, without its control
/// characters.
pub proof fn committed_text_is_typed(a: Seq<char>, b: Seq<char>, c: char)
    ensures
        committed(a + b) == committed(a) + committed(b),
        (c as u32) < 0x20 || 0x7f <= (c as u32) <= 0x9f ==> committed(seq![c]).len() == 0,
        !((c as u32) < 0x20 || 0x7f <= (c as u32) <= 0x9f) ==> {
            let e = committed(seq![c]);
            e.len() == 1 && e[0].key == Key::Char(c) && e[0].pressed && !e[0].shift && !e[0].ctrl
                && !e[0].alt && !e[0].meta
        },
    decreases b.len(),
{
    let one = seq![c];
    assert(one.drop_last() =~= Seq::<char>::empty());
    assert(one.last() == c);
    assert(committed(one.drop_last()) =~= Seq::<KeyEvent>::empty());
    if b.len() == 0 {
        assert(a + b =~= a);
        assert(committed(a) + committed(b) =~= committed(a));
    } else {
        committed_text_is_typed(a, b.drop_last(), c);
        assert((a + b).drop_last() =~= a + b.drop_last());
        assert((a + b).last() == b.last());
        one_more_behind(a, b, b.last());
    }
}

proof fn one_more_behind(a: Seq<char>, b: Seq<char>, c: char)
    requires
        b.len() > 0,
        b.last() == c,
        committed(a + b.drop_last()) == committed(a) + committed(b.drop_last()),
    ensures
        committed(a + b) == committed(a) + committed(b),
{
    assert((a + b).drop_last() =~= a + b.drop_last());
    one_more_character(b, c);
    one_more_character(a + b, c);
    let more = committed(b.drop_last());
    let k = key_event(Key::Char(c), false, false);
    assert((committed(a) + more).push(k) =~= committed(a) + more.push(k));
}

proof fn one_more_character(s: Seq<char>, c: char)
    requires
        s.len() > 0,
        s.last() == c,
    ensures
        text::control(s.last()) ==> committed(s) == committed(s.drop_last()),
        !text::control(s.last()) ==> committed(s) == committed(s.drop_last()).push(
            key_event(Key::Char(c), false, false),
        ),
{
}

/// The variable decides about the GPU where it is set: nothing and a single zero forbid it, any
/// other value asks for it. Where it is not set the renderer decides.
pub proof fn the_variable_comes_first(renderer: Renderer, other: Renderer, s: Seq<char>)
    ensures
        wants(renderer, Some(s)) == wants(other, Some(s)),
        wants(renderer, Some(s)) <==> s.len() >= 2 || (s.len() == 1 && s[0] != '0'),
        wants(renderer, None) == renderer.tries_gpu(),
{
    if s.len() == 1 && s[0] == '0' {
        assert(s =~= seq!['0']);
    }
    if s == seq!['0'] {
        assert(s.len() == 1 && s[0] == '0');
    }
}

/// A window that is shown comes to the front, out of the Dock first where it is there; its content
/// is told where it was out of sight, and then it moves on.
pub proof fn shown_windows_come_to_the_front(visible: bool, miniaturized: bool)
    ensures
        ({
            let s = shown_and_activated(visible, miniaturized);
            let n = s.len();
            &&& s.contains(WindowStep::Front)
            &&& s[0] is Deminiaturize <==> miniaturized
            &&& s.contains(WindowStep::NotifyShown) <==> !visible
            &&& s[n - 1] is NextFrame
            &&& n == 2 + (if miniaturized { 1int } else { 0 }) + (if visible { 0int } else { 1 })
            &&& s[if miniaturized { 1int } else { 0 }] is Front
        }),
{
    let s = shown_and_activated(visible, miniaturized);
    let k = if miniaturized { 1int } else { 0 };
    assert(s[k] is Front);
    if !visible {
        assert(s[k + 1] is NotifyShown);
    }
}

} // verus!
