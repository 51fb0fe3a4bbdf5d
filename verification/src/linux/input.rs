//! What a key or a button press means.

use super::keys::{self, Keymap, KeymapView};
use super::window::{PendingDrag, PointerState};
use crate::event::{Key, KeyEvent, Mods, MouseButton, PointerEvent, PointerKind};
use crate::geometry::Point;
use crate::text;
use vstd::prelude::*;

verus! {

/// The direction code by which the window manager is asked to move a window.
pub const MOVERESIZE_MOVE: u32 = 8;

/// The modifiers in a state mask.
pub open spec fn mods_in(state: u16) -> Mods {
    Mods {
        ctrl: state & keys::CONTROL != 0,
        alt: state & keys::MOD1 != 0,
        shift: state & keys::SHIFT != 0,
        meta: state & keys::MOD4 != 0,
    }
}

pub fn mods_of(state: u16) -> (r: Mods)
    ensures
        r == mods_in(state),
{
    Mods {
        ctrl: state & keys::CONTROL != 0,
        alt: state & keys::MOD1 != 0,
        shift: state & keys::SHIFT != 0,
        meta: state & keys::MOD4 != 0,
    }
}

/// The resize direction at a point of a frameless window: clockwise from the upper left corner;
/// corners come before edges.
pub open spec fn edge_at(x: int, y: int, w: int, h: int, border: int) -> Option<u32> {
    let left = x < border;
    let right = x >= w - border;
    let top = y < border;
    let bottom = y >= h - border;
    if left && top {
        Some(0)
    } else if right && top {
        Some(2)
    } else if right && bottom {
        Some(4)
    } else if left && bottom {
        Some(6)
    } else if top {
        Some(1)
    } else if right {
        Some(3)
    } else if bottom {
        Some(5)
    } else if left {
        Some(7)
    } else {
        None
    }
}

pub fn edge_direction(pos: Point, w: i32, h: i32, border: i32) -> (r: Option<u32>)
    ensures
        r == edge_at(pos.x as int, pos.y as int, w as int, h as int, border as int),
{
    let x: i32 = pos.x;
    let y: i32 = pos.y;
    let left = x < border;
    let right = x as i64 >= w as i64 - border as i64;
    let top = y < border;
    let bottom = y as i64 >= h as i64 - border as i64;
    if left && top {
        Some(0)
    } else if right && top {
        Some(2)
    } else if right && bottom {
        Some(4)
    } else if left && bottom {
        Some(6)
    } else if top {
        Some(1)
    } else if right {
        Some(3)
    } else if bottom {
        Some(5)
    } else if left {
        Some(7)
    } else {
        None
    }
}

/// A named key's press, with the modifiers of the moment.
pub open spec fn pressed_key(key: Key, m: Mods) -> KeyEvent {
    KeyEvent { key, pressed: true, shift: m.shift, ctrl: m.ctrl, alt: m.alt, meta: m.meta }
}

/// A typed character. It already is what the modifiers made of the key, so it carries none.
pub open spec fn typed(c: char) -> KeyEvent {
    KeyEvent {
        key: Key::Char(c),
        pressed: true,
        shift: false,
        ctrl: false,
        alt: false,
        meta: false,
    }
}

/// The release of Alt, the only release that is reported.
pub open spec fn alt_released() -> KeyEvent {
    KeyEvent { key: Key::Alt, pressed: false, shift: false, ctrl: false, alt: false, meta: false }
}

/// A named key that also types its character.
pub open spec fn types_too(k: Key) -> bool {
    k is Space || k is NumpadAdd || k is NumpadSubtract || k is NumpadMultiply || k is NumpadDivide
}

/// The character that a keysym types, as events.
pub open spec fn text_events(ks: u32) -> Seq<KeyEvent> {
    match keys::char_of_keysym(ks) {
        Some(c) => if text::control(c) { Seq::empty() } else { seq![typed(c)] },
        None => Seq::empty(),
    }
}

/// The code of a shortcut on a key: its plain keysym's, or that of a Latin letter or digit on
/// the same key.
pub open spec fn shortcut_on_key(km: KeymapView, keycode: u8) -> Option<u32> {
    match keys::shortcut_of_keysym(km.column(keycode, 0)) {
        Some(code) => Some(code),
        None => match km.ascii_from(keycode, 0) {
            Some(ks) => keys::shortcut_of_keysym(ks),
            None => None,
        },
    }
}

/// What a key press delivers. A named key is delivered, and types its character too where it
/// has one and neither Ctrl nor Alt is held; with one of those a letter or digit is a shortcut
/// and types nothing; any other key types.
pub open spec fn press_events(km: KeymapView, keycode: u8, state: u16) -> Seq<KeyEvent> {
    let ks = km.keysym(keycode, state);
    let m = mods_in(state);
    match keys::key_of_keysym(ks) {
        Some(k) => if types_too(k) && !m.ctrl && !m.alt {
            seq![pressed_key(k, m)] + text_events(ks)
        } else {
            seq![pressed_key(k, m)]
        },
        None => if keys::modifier_keysym(ks) {
            Seq::empty()
        } else if m.ctrl || m.alt {
            match shortcut_on_key(km, keycode) {
                Some(code) => seq![pressed_key(Key::Other(code), m)],
                None => Seq::empty(),
            }
        } else {
            text_events(ks)
        },
    }
}

/// The key is Alt.
pub open spec fn is_alt(km: KeymapView, keycode: u8, state: u16) -> bool {
    keys::key_of_keysym(km.keysym(keycode, state)) == Some(Key::Alt)
}

/// The events of a key press or release, and whether Alt is down afterwards. A repeated press
/// of Alt is dropped.
pub open spec fn key_events(
    km: KeymapView,
    keycode: u8,
    state: u16,
    press: bool,
    alt_down: bool,
) -> (Seq<KeyEvent>, bool) {
    if !press {
        if is_alt(km, keycode, state) {
            (seq![alt_released()], false)
        } else {
            (Seq::empty(), alt_down)
        }
    } else if is_alt(km, keycode, state) {
        (if alt_down { Seq::empty() } else { press_events(km, keycode, state) }, true)
    } else {
        (press_events(km, keycode, state), alt_down)
    }
}

fn push_text(out: &mut Vec<KeyEvent>, ks: u32)
    ensures
        final(out)@ == old(out)@ + text_events(ks),
{
    if let Some(c) = keys::keysym_char(ks) {
        if !text::is_control(c) {
            out.push(
                KeyEvent {
                    key: Key::Char(c),
                    pressed: true,
                    shift: false,
                    ctrl: false,
                    alt: false,
                    meta: false,
                },
            );
            assert(out@ =~= old(out)@ + text_events(ks));
        }
    }
    assert(out@ =~= old(out)@ + text_events(ks));
}

/// The events of a key press or release; `alt_down` follows Alt.
pub fn key_input(
    keymap: &Keymap,
    keycode: u8,
    state: u16,
    press: bool,
    alt_down: &mut bool,
) -> (r: Vec<KeyEvent>)
    ensures
        (r@, *final(alt_down)) == key_events(keymap@, keycode, state, press, *old(alt_down)),
{
    let mut out: Vec<KeyEvent> = Vec::new();
    let ks: u32 = keymap.keysym(keycode, state);
    let m = mods_of(state);
    if !press {
        if let Some(Key::Alt) = keys::special_key(ks) {
            *alt_down = false;
            out.push(
                KeyEvent {
                    key: Key::Alt,
                    pressed: false,
                    shift: false,
                    ctrl: false,
                    alt: false,
                    meta: false,
                },
            );
        }
        return out;
    }
    if let Some(k) = keys::special_key(ks) {
        if let Key::Alt = k {
            if *alt_down {
                return out;
            }
            *alt_down = true;
        }
        out.push(
            KeyEvent {
                key: k,
                pressed: true,
                shift: m.shift,
                ctrl: m.ctrl,
                alt: m.alt,
                meta: m.meta,
            },
        );
        let also = matches!(
            k,
            Key::Space | Key::NumpadAdd | Key::NumpadSubtract | Key::NumpadMultiply | Key::NumpadDivide
        );
        if also && !m.ctrl && !m.alt {
            push_text(&mut out, ks);
        }
        return out;
    }
    if keys::is_modifier(ks) {
        return out;
    }
    if m.ctrl || m.alt {
        let plain = keys::shortcut_code(keymap.base(keycode));
        let code = match plain {
            Some(c) => Some(c),
            None => match keymap.ascii_on_key(keycode) {
                Some(a) => keys::shortcut_code(a),
                None => None,
            },
        };
        if let Some(c) = code {
            out.push(
                KeyEvent {
                    key: Key::Other(c),
                    pressed: true,
                    shift: m.shift,
                    ctrl: m.ctrl,
                    alt: m.alt,
                    meta: m.meta,
                },
            );
        }
        return out;
    }
    push_text(&mut out, ks);
    out
}

/// A press or release of a pointer button.
#[derive(Clone, Copy, Debug, PartialEq, Eq, Structural)]
pub struct ButtonEvent {
    pub window: u32,
    pub detail: u8,
    pub state: u16,
    pub time: u32,
    pub x: i16,
    pub y: i16,
    pub root_x: i16,
    pub root_y: i16,
    pub press: bool,
}

/// What lies under a point, as the window's content says.
#[derive(Clone, Copy, Debug, PartialEq, Eq, Structural)]
pub struct HitTest {
    /// A control.
    pub interactive: bool,
    /// The area by which the window is dragged.
    pub drag: bool,
}

/// Distances in physical pixels at the scale of the moment.
#[derive(Clone, Copy, Debug, PartialEq, Eq, Structural)]
pub struct Metrics {
    /// How far a double click may wander.
    pub slop: i32,
    /// How far a press may wander before it drags.
    pub drag_slop: i32,
    /// The width of a frameless window's resize border.
    pub border: i32,
}

/// What the frame of a window is like.
#[derive(Clone, Copy, Debug, PartialEq, Eq, Structural)]
pub struct Frame {
    pub frameless: bool,
    pub resizable: bool,
    pub maximized: bool,
    pub w: i32,
    pub h: i32,
}

/// A press on the frame of a frameless window: what the pointer is in the middle of then, and
/// whether the window is to be maximised or restored. `None` leaves the press to the content.
///
/// An edge resizes, unless a control is there; the drag area moves, and a double click on it
/// switches between maximised and restored. Nothing is handed to the window manager yet.
pub open spec fn frame_press(
    p: PointerState,
    f: Frame,
    e: ButtonEvent,
    hit: HitTest,
    m: Metrics,
) -> Option<(PointerState, bool)> {
    let edge = edge_at(e.x as int, e.y as int, f.w as int, f.h as int, m.border as int);
    if f.resizable && !f.maximized && edge is Some && !hit.interactive {
        Some(
            (PointerState { pending_drag: Some(PendingDrag { direction: edge.unwrap(), x: e.root_x, y: e.root_y }), ..p }, false),
        )
    } else if hit.drag && !hit.interactive {
        let click = p.click.pressed(e.time, e.x as i32, e.y as i32, 1, m.slop);
        if click.count == 2 {
            Some((PointerState { click, pending_drag: None, ..p }, f.resizable))
        } else {
            Some(
                (
                    PointerState {
                        click,
                        pending_drag: Some(PendingDrag { direction: MOVERESIZE_MOVE, x: e.root_x, y: e.root_y }),
                        ..p
                    },
                    false,
                ),
            )
        }
    } else {
        None
    }
}

/// What a button event comes to.
#[derive(Clone, Copy, Debug, PartialEq, Eq, Structural)]
pub enum ButtonOutcome {
    Ignored,
    /// Bring this modal window to the front instead.
    Raise(u32),
    /// Deliver this pointer event.
    Deliver(PointerEvent),
    /// Give up the composition first, then deliver.
    DeliverAfterAbort(PointerEvent),
    /// The frame took the press: dismiss menus, and switch the maximised state where asked.
    FrameTook { toggle: bool },
    /// The release of a press that the frame took.
    Swallowed,
}

/// The pointer button of a core button number.
pub open spec fn button_of(detail: u8) -> Option<MouseButton> {
    match detail {
        1 => Some(MouseButton::Left),
        2 => Some(MouseButton::Middle),
        3 => Some(MouseButton::Right),
        _ => None,
    }
}

/// A wheel step: buttons 4 and 5, on the press.
pub open spec fn wheel_event(e: ButtonEvent) -> PointerEvent {
    PointerEvent {
        kind: PointerKind::Wheel(if e.detail == 4 { 120i32 } else { -120i32 }),
        x: e.x as i32,
        y: e.y as i32,
        button: MouseButton::Left,
        click_count: 1,
        mods: mods_in(e.state),
    }
}

/// A button event on a window that takes input.
pub open spec fn button_on(
    p: PointerState,
    f: Frame,
    e: ButtonEvent,
    hit: HitTest,
    m: Metrics,
) -> (PointerState, ButtonOutcome) {
    if e.detail == 4 || e.detail == 5 {
        (p, if e.press { ButtonOutcome::Deliver(wheel_event(e)) } else { ButtonOutcome::Ignored })
    } else if button_of(e.detail) is None {
        (p, ButtonOutcome::Ignored)
    } else if e.detail == 1 && f.frameless && e.press && frame_press(p, f, e, hit, m) is Some {
        let (taken, toggle) = frame_press(p, f, e, hit, m).unwrap();
        (PointerState { swallow_up: true, ..taken }, ButtonOutcome::FrameTook { toggle })
    } else if e.detail == 1 && f.frameless && !e.press && p.swallow_up {
        (PointerState { swallow_up: false, pending_drag: None, ..p }, ButtonOutcome::Swallowed)
    } else {
        let click = p.click.pressed(e.time, e.x as i32, e.y as i32, e.detail, m.slop);
        let ev = PointerEvent {
            kind: if e.press { PointerKind::Down } else { PointerKind::Up },
            x: e.x as i32,
            y: e.y as i32,
            button: button_of(e.detail).unwrap(),
            click_count: if e.press { click.count as u32 } else { 1u32 },
            mods: mods_in(e.state),
        };
        if e.press {
            (PointerState { click, ..p }, ButtonOutcome::DeliverAfterAbort(ev))
        } else {
            (p, ButtonOutcome::Deliver(ev))
        }
    }
}

/// Takes a button event on a window that takes input.
pub fn button_input(p: &mut PointerState, f: Frame, e: ButtonEvent, hit: HitTest, m: Metrics) -> (r:
    ButtonOutcome)
    ensures
        (*final(p), r) == button_on(*old(p), f, e, hit, m),
{
    let x: i32 = e.x as i32;
    let y: i32 = e.y as i32;
    let mods = mods_of(e.state);
    if e.detail == 4 || e.detail == 5 {
        if !e.press {
            return ButtonOutcome::Ignored;
        }
        let step: i32 = if e.detail == 4 { 120 } else { -120 };
        return ButtonOutcome::Deliver(
            PointerEvent {
                kind: PointerKind::Wheel(step),
                x,
                y,
                button: MouseButton::Left,
                click_count: 1,
                mods,
            },
        );
    }
    let button = match e.detail {
        1 => MouseButton::Left,
        2 => MouseButton::Middle,
        3 => MouseButton::Right,
        _ => {
            return ButtonOutcome::Ignored;
        },
    };
    if e.detail == 1 && f.frameless {
        if e.press {
            if let Some(toggle) = try_frameless_drag(p, f, e, hit, m) {
                p.swallow_up = true;
                return ButtonOutcome::FrameTook { toggle };
            }
        } else if p.swallow_up {
            p.swallow_up = false;
            p.pending_drag = None;
            return ButtonOutcome::Swallowed;
        }
    }
    if e.press {
        let count: u8 = p.click.press(e.time, (x, y), e.detail, m.slop);
        ButtonOutcome::DeliverAfterAbort(
            PointerEvent { kind: PointerKind::Down, x, y, button, click_count: count as u32, mods },
        )
    } else {
        ButtonOutcome::Deliver(
            PointerEvent { kind: PointerKind::Up, x, y, button, click_count: 1, mods },
        )
    }
}

/// A press on the frame of a frameless window; says whether to switch the maximised state, or
/// leaves the press to the content.
fn try_frameless_drag(
    p: &mut PointerState,
    f: Frame,
    e: ButtonEvent,
    hit: HitTest,
    m: Metrics,
) -> (r: Option<bool>)
    ensures
        match r {
            Some(toggle) => frame_press(*old(p), f, e, hit, m) == Some((*final(p), toggle)),
            None => frame_press(*old(p), f, e, hit, m) is None && *final(p) == *old(p),
        },
{
    let x: i32 = e.x as i32;
    let y: i32 = e.y as i32;
    if f.resizable && !f.maximized {
        if let Some(dir) = edge_direction(Point::new(x, y), f.w, f.h, m.border) {
            if !hit.interactive {
                p.pending_drag = Some(PendingDrag { direction: dir, x: e.root_x, y: e.root_y });
                return Some(false);
            }
        }
    }
    if hit.drag && !hit.interactive {
        let n: u8 = p.click.press(e.time, (x, y), 1, m.slop);
        if n == 2 {
            p.pending_drag = None;
            return Some(f.resizable);
        }
        p.pending_drag = Some(PendingDrag { direction: MOVERESIZE_MOVE, x: e.root_x, y: e.root_y });
        return Some(false);
    }
    None
}

/// A pointer move on a window.
#[derive(Clone, Copy, Debug, PartialEq, Eq, Structural)]
pub enum DragMotion {
    /// No press is pending: the move is an ordinary one.
    Free,
    /// A press is pending and has not moved far enough.
    Waiting,
    /// Hand the drag to the window manager: where it began, and its direction.
    HandOver { x: i16, y: i16, direction: u32 },
}

/// What a pointer move does to a pending press.
pub open spec fn drag_motion(p: PointerState, root_x: i16, root_y: i16, slop: i32) -> DragMotion {
    match p.pending_drag {
        None => DragMotion::Free,
        Some(PendingDrag { direction, x, y }) => if super::window::within(root_x as int, x as int, slop as int)
            && super::window::within(root_y as int, y as int, slop as int) {
            DragMotion::Waiting
        } else {
            DragMotion::HandOver { x, y, direction }
        },
    }
}

/// Takes a pointer move into account: a pending press that moved far enough stops pending.
pub fn pending_drag_motion(p: &mut PointerState, root_x: i16, root_y: i16, slop: i32) -> (r: DragMotion)
    ensures
        r == drag_motion(*old(p), root_x, root_y, slop),
        *final(p) == (if r is HandOver {
            PointerState { pending_drag: None, ..*old(p) }
        } else {
            *old(p)
        }),
{
    match p.pending_drag {
        None => DragMotion::Free,
        Some(PendingDrag { direction, x, y }) => {
            let dx: i64 = root_x as i64 - x as i64;
            let dy: i64 = root_y as i64 - y as i64;
            let s: i64 = slop as i64;
            if -s <= dx && dx <= s && -s <= dy && dy <= s {
                DragMotion::Waiting
            } else {
                p.pending_drag = None;
                DragMotion::HandOver { x, y, direction }
            }
        },
    }
}

/// A press that the frame takes never reaches the content, and neither does its release:
/// the release is swallowed, and the frame's hold ends there.
pub proof fn frame_press_and_release_stay_with_the_frame(
    p: PointerState,
    f: Frame,
    down: ButtonEvent,
    up: ButtonEvent,
    hit: HitTest,
    m: Metrics,
)
    requires
        f.frameless,
        down.press && !up.press,
        down.detail == 1 && up.detail == 1,
        frame_press(p, f, down, hit, m) is Some,
    ensures
        ({
            let (held, first) = button_on(p, f, down, hit, m);
            let (freed, second) = button_on(held, f, up, hit, m);
            &&& first is FrameTook
            &&& second is Swallowed
            &&& !freed.swallow_up && freed.pending_drag is None
        }),
{
}

/// Ctrl or Alt with a key never types text: at most one event comes of it, and none is a
/// character.
pub proof fn shortcuts_do_not_type(km: KeymapView, keycode: u8, state: u16)
    requires
        mods_in(state).ctrl || mods_in(state).alt,
    ensures
        press_events(km, keycode, state).len() <= 1,
        forall|i: int|
            0 <= i < press_events(km, keycode, state).len() ==> !((#[trigger] press_events(
                km,
                keycode,
                state,
            )[i]).key is Char),
{
}

/// Holding Alt reports one press: until Alt is released, further presses of it are dropped.
pub proof fn alt_is_reported_once(km: KeymapView, keycode: u8, state: u16)
    requires
        is_alt(km, keycode, state),
    ensures
        ({
            let (first, down) = key_events(km, keycode, state, true, false);
            let (again, still) = key_events(km, keycode, state, true, down);
            let (released, up) = key_events(km, keycode, state, false, still);
            &&& first == seq![pressed_key(Key::Alt, mods_in(state))]
            &&& again == Seq::<KeyEvent>::empty()
            &&& released == seq![alt_released()]
            &&& down && still && !up
        }),
{
}

/// The modifiers of a state are bits of it: Shift the first, Ctrl the third, Alt the fourth, Super
/// the seventh.
pub proof fn modifiers_are_bits(state: u16)
    ensures
        mods_in(state).shift == (state % 2 == 1),
        mods_in(state).ctrl == (state / 4 % 2 == 1),
        mods_in(state).alt == (state / 8 % 2 == 1),
        mods_in(state).meta == (state / 64 % 2 == 1),
{
    assert((state & 1 != 0) == (state % 2 == 1)) by (bit_vector);
    assert((state & 4 != 0) == (state / 4 % 2 == 1)) by (bit_vector);
    assert((state & 8 != 0) == (state / 8 % 2 == 1)) by (bit_vector);
    assert((state & 64 != 0) == (state / 64 % 2 == 1)) by (bit_vector);
}

/// A key event says which modifiers are held.
pub open spec fn carries(e: KeyEvent, state: u16) -> bool {
    &&& e.shift == (state % 2 == 1)
    &&& e.ctrl == (state / 4 % 2 == 1)
    &&& e.alt == (state / 8 % 2 == 1)
    &&& e.meta == (state / 64 % 2 == 1)
}

/// A key event says that no modifier is held.
pub open spec fn carries_none(e: KeyEvent) -> bool {
    !e.shift && !e.ctrl && !e.alt && !e.meta
}

/// A key that stands for a printable character other than the space types that character and
/// nothing else, as long as neither Ctrl nor Alt is held. Shift and Super do not keep it from
/// typing, and the character carries no modifiers.
pub proof fn printable_keys_type_their_character(km: KeymapView, keycode: u8, state: u16, alt: bool)
    requires
        state / 4 % 2 == 0,
        state / 8 % 2 == 0,
        ({
            let ks = km.keysym(keycode, state);
            0x21 <= ks <= 0x7e || 0xa0 <= ks <= 0xff
        }),
    ensures
        ({
            let (events, down) = key_events(km, keycode, state, true, alt);
            &&& events.len() == 1
            &&& events[0].key == Key::Char(km.keysym(keycode, state) as char)
            &&& events[0].pressed && carries_none(events[0])
            &&& down == alt
        }),
{
    modifiers_are_bits(state);
}

/// Any other character that a key stands for is typed too, unless the key has a name.
pub proof fn unnamed_keys_type_their_character(km: KeymapView, keycode: u8, state: u16, c: char)
    requires
        state / 4 % 2 == 0,
        state / 8 % 2 == 0,
        keys::char_of_keysym(km.keysym(keycode, state)) == Some(c),
        keys::key_of_keysym(km.keysym(keycode, state)) is None,
        !(c as u32 <= 0x1f) && !(0x7f <= c as u32 <= 0x9f),
    ensures
        ({
            let events = press_events(km, keycode, state);
            events.len() == 1 && events[0].key == Key::Char(c) && events[0].pressed && carries_none(
                events[0],
            )
        }),
{
    modifiers_are_bits(state);
    if keys::modifier_keysym(km.keysym(keycode, state)) {
        keys::modifiers_do_not_type(km.keysym(keycode, state));
    }
}

/// A press of a named key is that key, once, with the modifiers of the moment; the space bar and
/// the operators of the keypad type their character behind it unless Ctrl or Alt is held.
pub proof fn named_keys_are_delivered(km: KeymapView, keycode: u8, state: u16, k: Key)
    requires
        keys::key_of_keysym(km.keysym(keycode, state)) == Some(k),
    ensures
        ({
            let events = press_events(km, keycode, state);
            let held = state / 4 % 2 == 1 || state / 8 % 2 == 1;
            let both = k is Space || k is NumpadAdd || k is NumpadSubtract || k is NumpadMultiply || k
                is NumpadDivide;
            &&& events.len() == (if both && !held { 2 } else { 1int })
            &&& events[0].key == k && events[0].pressed && carries(events[0], state)
            &&& both && !held ==> events[1].pressed && carries_none(events[1]) && events[1].key
                == Key::Char(
                if k is Space {
                    ' '
                } else if k is NumpadAdd {
                    '+'
                } else if k is NumpadSubtract {
                    '-'
                } else if k is NumpadMultiply {
                    '*'
                } else {
                    '/'
                },
            )
        }),
{
    modifiers_are_bits(state);
}

/// With Ctrl or Alt a letter or a digit is a shortcut: one event with the code of the capital or
/// digit that the key shows without modifiers, and with the modifiers of the moment.
pub proof fn letters_with_ctrl_or_alt_are_shortcuts(km: KeymapView, keycode: u8, state: u16)
    requires
        state / 4 % 2 == 1 || state / 8 % 2 == 1,
        ({
            let plain = km.column(keycode, 0);
            0x30 <= plain <= 0x39 || 0x41 <= plain <= 0x5a || 0x61 <= plain <= 0x7a
        }),
        keys::key_of_keysym(km.keysym(keycode, state)) is None,
        !keys::modifier_keysym(km.keysym(keycode, state)),
    ensures
        ({
            let plain = km.column(keycode, 0);
            let events = press_events(km, keycode, state);
            &&& events.len() == 1
            &&& events[0].key == Key::Other(
                if plain >= 0x61 {
                    (plain - 0x20) as u32
                } else {
                    plain
                },
            )
            &&& events[0].pressed && carries(events[0], state)
        }),
{
    modifiers_are_bits(state);
}

/// On a layout of another script a shortcut goes by the first Latin letter or digit on the key;
/// a key without one is no shortcut.
pub proof fn shortcuts_fall_back_to_latin(km: KeymapView, keycode: u8, state: u16)
    requires
        state / 4 % 2 == 1 || state / 8 % 2 == 1,
        keys::shortcut_of_keysym(km.column(keycode, 0)) is None,
        keys::key_of_keysym(km.keysym(keycode, state)) is None,
        !keys::modifier_keysym(km.keysym(keycode, state)),
    ensures
        ({
            let events = press_events(km, keycode, state);
            match km.ascii_from(keycode, 0) {
                Some(ks) => events.len() == 1 && (events[0].key matches Key::Other(code)
                    && keys::shortcut_of_keysym(ks) == Some(code)) && carries(events[0], state),
                None => events.len() == 0,
            }
        }),
{
    modifiers_are_bits(state);
    keys::the_first_latin_keysym_counts(km, keycode, 0);
}

/// Of releases only that of Alt is reported, and only then does Alt count as up.
pub proof fn only_alt_is_released(km: KeymapView, keycode: u8, state: u16, alt: bool)
    ensures
        ({
            let (events, down) = key_events(km, keycode, state, false, alt);
            let is_alt = keys::key_of_keysym(km.keysym(keycode, state)) == Some(Key::Alt);
            &&& events.len() == (if is_alt { 1int } else { 0 })
            &&& is_alt ==> events[0].key == Key::Alt && !events[0].pressed && !down
            &&& !is_alt ==> down == alt
        }),
{
}

/// The event that an outcome delivers.
pub open spec fn delivered(o: ButtonOutcome) -> Option<PointerEvent> {
    match o {
        ButtonOutcome::Deliver(ev) => Some(ev),
        ButtonOutcome::DeliverAfterAbort(ev) => Some(ev),
        _ => None,
    }
}

/// What is delivered of a button is delivered where it happened, with the modifiers of the
/// moment, and is what the button means: the first three are buttons, pressed or released, and
/// the next two are steps of the wheel, up and down, of the same size.
pub proof fn buttons_are_delivered_in_place(
    p: PointerState,
    f: Frame,
    e: ButtonEvent,
    hit: HitTest,
    m: Metrics,
)
    ensures
        delivered(button_on(p, f, e, hit, m).1) matches Some(ev) ==> {
            &&& ev.x == e.x && ev.y == e.y
            &&& ev.mods.shift == (e.state % 2 == 1) && ev.mods.ctrl == (e.state / 4 % 2 == 1)
            &&& ev.mods.alt == (e.state / 8 % 2 == 1) && ev.mods.meta == (e.state / 64 % 2 == 1)
            &&& e.detail == 1 ==> ev.button == MouseButton::Left
            &&& e.detail == 2 ==> ev.button == MouseButton::Middle
            &&& e.detail == 3 ==> ev.button == MouseButton::Right
            &&& e.detail <= 3 ==> ev.kind == (if e.press {
                PointerKind::Down
            } else {
                PointerKind::Up
            })
            &&& 1 <= e.detail <= 5
            &&& e.detail >= 4 ==> e.press && ev.kind == PointerKind::Wheel(
                if e.detail == 4 {
                    120
                } else {
                    (-120) as i32
                },
            )
            &&& !e.press ==> ev.click_count == 1
        },
        e.detail == 2 || e.detail == 3 || (e.detail == 1 && !f.frameless) || (e.press && (e.detail == 4
            || e.detail == 5)) ==> delivered(button_on(p, f, e, hit, m).1) is Some,
        e.press && 1 <= e.detail <= 3 ==> !(button_on(p, f, e, hit, m).1 is Deliver),
        e.detail == 0 || e.detail > 5 ==> button_on(p, f, e, hit, m) == (p, ButtonOutcome::Ignored),
{
    modifiers_are_bits(e.state);
}

/// A press counts its clicks: the count that is delivered is the one that is kept, and what the
/// frame takes of the pointer is not touched by a press that reaches the content.
pub proof fn presses_count_their_clicks(
    p: PointerState,
    f: Frame,
    e: ButtonEvent,
    hit: HitTest,
    m: Metrics,
)
    requires
        e.press,
        1 <= e.detail <= 3,
    ensures
        ({
            let (after, out) = button_on(p, f, e, hit, m);
            delivered(out) matches Some(ev) ==> {
                &&& ev.click_count == after.click.count
                &&& after == (PointerState { click: after.click, ..p })
            }
        }),
{
}

/// The edges of a frameless window: a window wide enough is resized at a point exactly where the
/// point is within the border of a side. The codes run clockwise from the upper left corner, so
/// each names the sides that it moves.
pub proof fn resize_directions_name_their_sides(x: int, y: int, w: int, h: int, border: int)
    requires
        0 <= border,
        2 * border <= w,
        2 * border <= h,
    ensures
        edge_at(x, y, w, h, border) is None <==> border <= x < w - border && border <= y < h - border,
        edge_at(x, y, w, h, border) matches Some(d) ==> {
            &&& d <= 7
            &&& (d == 0 || d == 6 || d == 7) == (x < border)
            &&& (d == 2 || d == 3 || d == 4) == (x >= w - border)
            &&& (d == 0 || d == 1 || d == 2) == (y < border)
            &&& (d == 4 || d == 5 || d == 6) == (y >= h - border)
        },
{
}

/// A press on the frame that has not moved by more than the slop either way waits; further away it
/// is handed to the window manager with the place where it began and its direction, and does not
/// wait any more. Without such a press the pointer is free.
pub proof fn drags_start_beyond_the_slop(p: PointerState, x: i16, y: i16, slop: i32)
    ensures
        p.pending_drag is None <==> drag_motion(p, x, y, slop) is Free,
        p.pending_drag matches Some(d) ==> {
            let far = x - d.x > slop || d.x - x > slop || y - d.y > slop || d.y - y > slop;
            &&& far == drag_motion(p, x, y, slop) is HandOver
            &&& !far == drag_motion(p, x, y, slop) is Waiting
            &&& drag_motion(p, x, y, slop) matches DragMotion::HandOver { x: x0, y: y0, direction }
                ==> x0 == d.x && y0 == d.y && direction == d.direction
        },
{
}

/// A press on an edge resizes from where it was on the screen; a press on the drag area moves, or
/// on the second click of two switches between maximised and restored. A control keeps its press
/// in any case, and so does a place that is neither an edge nor dragged.
pub proof fn the_frame_takes_its_own_presses(
    p: PointerState,
    f: Frame,
    e: ButtonEvent,
    hit: HitTest,
    m: Metrics,
)
    requires
        f.frameless,
        e.press,
        e.detail == 1,
    ensures
        ({
            let (after, out) = button_on(p, f, e, hit, m);
            let edge = edge_at(e.x as int, e.y as int, f.w as int, f.h as int, m.border as int);
            let resizes = f.resizable && !f.maximized && edge is Some;
            &&& hit.interactive ==> delivered(out) is Some
            &&& !hit.drag && !resizes ==> delivered(out) is Some
            &&& !hit.interactive && (hit.drag || resizes) ==> out is FrameTook && after.swallow_up
            &&& out is FrameTook && resizes ==> out == (ButtonOutcome::FrameTook { toggle: false })
                && after.pending_drag == Some(
                PendingDrag { direction: edge.unwrap(), x: e.root_x, y: e.root_y },
            )
            &&& out is FrameTook && !resizes && after.click.count != 2 ==> out
                == (ButtonOutcome::FrameTook { toggle: false }) && after.pending_drag == Some(
                PendingDrag { direction: 8, x: e.root_x, y: e.root_y },
            )
            &&& out is FrameTook && !resizes && after.click.count == 2 ==> out
                == (ButtonOutcome::FrameTook { toggle: f.resizable }) && after.pending_drag is None
        }),
{
}

} // verus!
