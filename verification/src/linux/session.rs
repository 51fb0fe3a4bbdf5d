//! What the events of an X11 session come to: the table of windows after an event, and what
//! the host is to do about it.

use super::input::{self, ButtonEvent, ButtonOutcome, DragMotion, Frame, HitTest, Metrics};
use super::keys::Keymap;
use super::window::{self, PaintState, PointerState, ShowState, Win, Windows};
use crate::event::{CursorShape, KeyEvent, MouseButton, PointerEvent, PointerKind, WindowOp};
use crate::geometry::Rect;
use vstd::prelude::*;

verus! {

/// The atoms by which messages and properties are told apart.
#[derive(Clone, Copy, Debug, PartialEq, Eq, Structural)]
pub struct Atoms {
    pub wm_protocols: u32,
    pub wm_delete_window: u32,
    pub net_wm_state: u32,
    pub maximized_vert: u32,
    pub maximized_horz: u32,
    pub state_hidden: u32,
    pub xdnd_enter: u32,
    pub xdnd_position: u32,
    pub xdnd_status: u32,
    pub xdnd_leave: u32,
    pub xdnd_drop: u32,
    pub xdnd_finished: u32,
    pub xdnd_selection: u32,
    pub xdnd_action_copy: u32,
    pub text_uri_list: u32,
}

/// A client message with five numbers.
#[derive(Clone, Copy, Debug, PartialEq, Eq, Structural)]
pub struct Message {
    pub window: u32,
    pub kind: u32,
    pub format: u8,
    pub d0: u32,
    pub d1: u32,
    pub d2: u32,
    pub d3: u32,
    pub d4: u32,
}

/// An event of the server.
#[derive(Clone, Copy, Debug, PartialEq, Eq, Structural)]
pub enum XEvent {
    Expose { window: u32, left: u16, top: u16, w: u16, h: u16 },
    Configure { window: u32, w: u16, h: u16 },
    Mapped { window: u32 },
    Unmapped { window: u32 },
    Property { window: u32, atom: u32 },
    Message(Message),
    SelectionNotify { requestor: u32, selection: u32, property: u32 },
    Button(ButtonEvent),
    Motion { window: u32, x: i16, y: i16, root_x: i16, root_y: i16, state: u16 },
    /// `normal` tells a real leave from one that a grab causes.
    Leave { window: u32, normal: bool, state: u16 },
    Key { window: u32, keycode: u8, state: u16, press: bool },
    /// `grab` marks a change of focus that a grab causes.
    Focus { window: u32, gained: bool, grab: bool },
    Mapping { keyboard: bool },
    Other,
}

/// What the host does about an event.
#[derive(Clone, Copy, Debug, PartialEq, Eq, Structural)]
pub enum Reaction {
    Nothing,
    /// Tell the content how its window stands ([`Session::report_state`]).
    ReportState(u32),
    /// Read the window manager's state property ([`Session::refresh_wm_state`]).
    RefreshState(u32),
    /// A drag-and-drop message.
    Dnd(Message),
    /// The dropped data arrived.
    DropData { requestor: u32, property: u32 },
    /// The close button ([`Session::request_close`]).
    RequestClose(u32),
    /// A button ([`Session::on_button`]).
    Button(ButtonEvent),
    /// Deliver a pointer event to the content.
    Pointer { window: u32, event: PointerEvent },
    /// Let go of the pointer and hand the drag to the window manager.
    HandOver { window: u32, x: i16, y: i16, direction: u32 },
    /// A grabbed key on the root window.
    Hotkey { keycode: u8, state: u16 },
    /// A key, which the input method is offered first ([`Session::on_key`]).
    Key { window: u32, keycode: u8, state: u16, press: bool },
    Focus { window: u32, gained: bool },
    ReloadKeymap,
}

/// A window of the table.
pub open spec fn known(s: Seq<Win>, id: u32) -> bool {
    window::position(s, id) < s.len()
}

/// The window `id` of the table.
pub open spec fn win(s: Seq<Win>, id: u32) -> Win {
    s[window::position(s, id)]
}

/// The table with another value for window `id`.
pub open spec fn with_win(s: Seq<Win>, id: u32, w: Win) -> Seq<Win> {
    s.update(window::position(s, id), w)
}

/// A window takes input: it is there, and no modal window blocks it.
pub open spec fn takes_input(s: Seq<Win>, id: u32) -> bool {
    known(s, id) && window::blocker(s, id) is None
}

/// A window that asks for a frame.
pub open spec fn dirty(w: Win) -> Win {
    Win { paint: (PaintState { needs_paint: true, ..w.paint }), ..w }
}

/// A window that asks for a frame if `repaint` says so.
pub open spec fn dirty_if(w: Win, repaint: bool) -> Win {
    if repaint { dirty(w) } else { w }
}

/// The drag-and-drop messages that a target receives.
pub open spec fn dnd_kind(a: Atoms, kind: u32) -> bool {
    kind == a.xdnd_enter || kind == a.xdnd_position || kind == a.xdnd_drop || kind == a.xdnd_leave
}

/// A pointer move.
pub open spec fn move_event(x: i32, y: i32, state: u16) -> PointerEvent {
    PointerEvent {
        kind: PointerKind::Move,
        x,
        y,
        button: MouseButton::Left,
        click_count: 1,
        mods: input::mods_in(state),
    }
}

/// The exposed area of a window after one more exposure.
pub open spec fn more_exposed(w: Win, r: Rect) -> Win {
    let all = match w.paint.exposed {
        Some(o) => o.join(r),
        None => r,
    };
    Win { paint: (PaintState { exposed: Some(all), ..w.paint }), ..w }
}

/// A window after it was mapped.
pub open spec fn now_mapped(w: Win) -> Win {
    Win {
        shown: (ShowState { mapped: true, minimized: false, ..w.shown }),
        paint: (PaintState { needs_paint: true, ..w.paint }),
        ..w
    }
}

/// The table and the reaction after an event.
pub open spec fn reaction_to(
    s: Seq<Win>,
    a: Atoms,
    root: u32,
    drag_slop: i32,
    ev: XEvent,
) -> (Seq<Win>, Reaction) {
    match ev {
        XEvent::Expose { window, left, top, w, h } => if known(s, window) {
            let r = Rect { x: left as i32, y: top as i32, w: w as i32, h: h as i32 };
            (with_win(s, window, more_exposed(win(s, window), r)), Reaction::Nothing)
        } else {
            (s, Reaction::Nothing)
        },
        XEvent::Configure { window, w, h } => if known(s, window) && (win(s, window).w != w || win(
            s,
            window,
        ).h != h) {
            let next = Win { w: w as i32, h: h as i32, ..dirty(win(s, window)) };
            (with_win(s, window, next), Reaction::Nothing)
        } else {
            (s, Reaction::Nothing)
        },
        XEvent::Mapped { window } => if known(s, window) {
            (with_win(s, window, now_mapped(win(s, window))), Reaction::ReportState(window))
        } else {
            (s, Reaction::Nothing)
        },
        XEvent::Unmapped { window } => if known(s, window) {
            let w = win(s, window);
            let next = Win { shown: (ShowState { mapped: false, ..w.shown }), ..w };
            (with_win(s, window, next), Reaction::ReportState(window))
        } else {
            (s, Reaction::Nothing)
        },
        XEvent::Property { window, atom } => (
            s,
            if atom == a.net_wm_state {
                Reaction::RefreshState(window)
            } else {
                Reaction::Nothing
            },
        ),
        XEvent::Message(m) => (
            s,
            if dnd_kind(a, m.kind) {
                Reaction::Dnd(m)
            } else if m.kind == a.wm_protocols && m.format == 32 && m.d0 == a.wm_delete_window {
                Reaction::RequestClose(m.window)
            } else {
                Reaction::Nothing
            },
        ),
        XEvent::SelectionNotify { requestor, selection, property } => (
            s,
            if selection == a.xdnd_selection {
                Reaction::DropData { requestor, property }
            } else {
                Reaction::Nothing
            },
        ),
        XEvent::Button(e) => (s, Reaction::Button(e)),
        XEvent::Motion { window, x, y, root_x, root_y, state } => if !known(s, window) {
            (s, Reaction::Nothing)
        } else {
            let w = win(s, window);
            match input::drag_motion(w.pointer, root_x, root_y, drag_slop) {
                DragMotion::Waiting => (s, Reaction::Nothing),
                DragMotion::HandOver { x: x0, y: y0, direction } => (
                    with_win(
                        s,
                        window,
                        Win {
                            pointer: (PointerState { pending_drag: None, ..w.pointer }),
                            ..w
                        },
                    ),
                    Reaction::HandOver { window, x: x0, y: y0, direction },
                ),
                DragMotion::Free => (
                    s,
                    if takes_input(s, window) {
                        Reaction::Pointer {
                            window,
                            event: move_event(x as i32, y as i32, state),
                        }
                    } else {
                        Reaction::Nothing
                    },
                ),
            }
        },
        XEvent::Leave { window, normal, state } => (
            s,
            if normal && state & 0x1f00 == 0 && takes_input(s, window) {
                Reaction::Pointer { window, event: move_event(-1i32, -1i32, 0) }
            } else {
                Reaction::Nothing
            },
        ),
        XEvent::Key { window, keycode, state, press } => (
            s,
            if window == root {
                if press { Reaction::Hotkey { keycode, state } } else { Reaction::Nothing }
            } else if window::blocker(s, window) is Some {
                Reaction::Nothing
            } else {
                Reaction::Key { window, keycode, state, press }
            },
        ),
        XEvent::Focus { window, gained, grab } => (
            s,
            if grab { Reaction::Nothing } else { Reaction::Focus { window, gained } },
        ),
        XEvent::Mapping { keyboard } => (
            s,
            if keyboard { Reaction::ReloadKeymap } else { Reaction::Nothing },
        ),
        XEvent::Other => (s, Reaction::Nothing),
    }
}

/// The state of a session.
pub struct Session {
    pub windows: Windows,
    pub atoms: Atoms,
    pub root: u32,
    /// The window that hot keys mean.
    pub main: u32,
    /// Alt is down; its auto-repeat is dropped.
    pub alt_down: bool,
}

/// Replacing a window by one that consistency cannot tell apart keeps the table consistent.
proof fn with_win_keeps(s: Seq<Win>, id: u32, w: Win)
    requires
        window::consistent(s),
        known(s, id),
        w.id == id,
        w.owner == win(s, id).owner,
        w.modal == win(s, id).modal,
        w.paint.exposed matches Some(r) ==> window::exposure_bounds(r),
    ensures
        window::consistent(with_win(s, id, w)),
        known(with_win(s, id, w), id),
        win(with_win(s, id, w), id) == w,
{
    window::position_finds(s, id);
    let t = with_win(s, id, w);
    assert forall|i: int| 0 <= i < s.len() implies (#[trigger] t[i]).id == s[i].id && t[i].owner
        == s[i].owner && t[i].modal == s[i].modal && (t[i].paint.exposed matches Some(r)
        ==> window::exposure_bounds(r)) by {
        if i != window::position(s, id) {
            assert(t[i] == s[i]);
        }
    }
    window::consistency_carries_over(s, t);
    window::position_is(t, id, window::position(s, id));
}

impl Session {
    pub open spec fn wf(self) -> bool {
        self.windows.wf()
    }

    /// The session with another table.
    pub open spec fn with_table(self, after: Session, s: Seq<Win>) -> bool {
        &&& after.windows.list@ == s
        &&& after.atoms == self.atoms
        &&& after.root == self.root
        &&& after.main == self.main
    }

    fn is_dnd_message(&self, kind: u32) -> (r: bool)
        ensures
            r == dnd_kind(self.atoms, kind),
    {
        kind == self.atoms.xdnd_enter || kind == self.atoms.xdnd_position || kind
            == self.atoms.xdnd_drop || kind == self.atoms.xdnd_leave
    }

    /// A window is there and no modal window blocks it.
    pub fn accepts(&self, id: u32) -> (r: bool)
        ensures
            r == takes_input(self.windows.list@, id),
    {
        self.windows.idx(id).is_some() && self.windows.blocked_by_modal(id).is_none()
    }

    /// Takes an event of the server.
    pub fn handle_event(&mut self, ev: XEvent, m: Metrics) -> (r: Reaction)
        requires
            old(self).wf(),
        ensures
            final(self).wf(),
            old(self).with_table(
                *final(self),
                reaction_to(
                    old(self).windows.list@,
                    old(self).atoms,
                    old(self).root,
                    m.drag_slop,
                    ev,
                ).0,
            ),
            final(self).alt_down == old(self).alt_down,
            r == reaction_to(
                old(self).windows.list@,
                old(self).atoms,
                old(self).root,
                m.drag_slop,
                ev,
            ).1,
    {
        match ev {
            XEvent::Expose { window, left, top, w, h } => {
                self.on_expose(window, Rect::new(left as i32, top as i32, w as i32, h as i32));
                Reaction::Nothing
            },
            XEvent::Configure { window, w, h } => {
                self.on_configure(window, w as i32, h as i32);
                Reaction::Nothing
            },
            XEvent::Mapped { window } => if self.on_map(window) {
                Reaction::ReportState(window)
            } else {
                Reaction::Nothing
            },
            XEvent::Unmapped { window } => if self.on_unmap(window) {
                Reaction::ReportState(window)
            } else {
                Reaction::Nothing
            },
            XEvent::Property { window, atom } => if atom == self.atoms.net_wm_state {
                Reaction::RefreshState(window)
            } else {
                Reaction::Nothing
            },
            XEvent::Message(msg) => if self.is_dnd_message(msg.kind) {
                Reaction::Dnd(msg)
            } else if msg.kind == self.atoms.wm_protocols && msg.format == 32 && msg.d0
                == self.atoms.wm_delete_window {
                Reaction::RequestClose(msg.window)
            } else {
                Reaction::Nothing
            },
            XEvent::SelectionNotify { requestor, selection, property } => if selection
                == self.atoms.xdnd_selection {
                Reaction::DropData { requestor, property }
            } else {
                Reaction::Nothing
            },
            XEvent::Button(e) => Reaction::Button(e),
            XEvent::Motion { window, x, y, root_x, root_y, state } => self.on_motion(
                window,
                x,
                y,
                root_x,
                root_y,
                state,
                m.drag_slop,
            ),
            XEvent::Leave { window, normal, state } => if normal && state & 0x1f00 == 0
                && self.accepts(window) {
                Reaction::Pointer { window, event: pointer_move(-1, -1, 0) }
            } else {
                Reaction::Nothing
            },
            XEvent::Key { window, keycode, state, press } => if window == self.root {
                if press {
                    Reaction::Hotkey { keycode, state }
                } else {
                    Reaction::Nothing
                }
            } else if self.windows.blocked_by_modal(window).is_some() {
                Reaction::Nothing
            } else {
                Reaction::Key { window, keycode, state, press }
            },
            XEvent::Focus { window, gained, grab } => if grab {
                Reaction::Nothing
            } else {
                Reaction::Focus { window, gained }
            },
            XEvent::Mapping { keyboard } => if keyboard {
                Reaction::ReloadKeymap
            } else {
                Reaction::Nothing
            },
            XEvent::Other => Reaction::Nothing,
        }
    }

    fn on_expose(&mut self, id: u32, r: Rect)
        requires
            old(self).wf(),
            0 <= r.x <= 65535 && 0 <= r.y <= 65535 && 0 <= r.w <= 65535 && 0 <= r.h <= 65535,
        ensures
            final(self).wf(),
            old(self).with_table(
                *final(self),
                if known(old(self).windows.list@, id) {
                    with_win(
                        old(self).windows.list@,
                        id,
                        more_exposed(win(old(self).windows.list@, id), r),
                    )
                } else {
                    old(self).windows.list@
                },
            ),
            final(self).alt_down == old(self).alt_down,
    {
        if let Some(i) = self.windows.idx(id) {
            let ghost s = self.windows.list@;
            assert(s[i as int].paint.exposed matches Some(o) ==> window::exposure_bounds(o));
            let all = match self.windows.list[i].paint.exposed {
                Some(o) => o.union(&r),
                None => r,
            };
            self.windows.list[i].paint.exposed = Some(all);
            proof {
                with_win_keeps(s, id, more_exposed(win(s, id), r));
                assert(self.windows.list@ =~= with_win(s, id, more_exposed(win(s, id), r)));
            }
        }
    }

    fn on_configure(&mut self, id: u32, w: i32, h: i32)
        requires
            old(self).wf(),
        ensures
            final(self).wf(),
            old(self).with_table(
                *final(self),
                if known(old(self).windows.list@, id) && (win(old(self).windows.list@, id).w != w
                    || win(old(self).windows.list@, id).h != h) {
                    with_win(
                        old(self).windows.list@,
                        id,
                        Win { w, h, ..dirty(win(old(self).windows.list@, id)) },
                    )
                } else {
                    old(self).windows.list@
                },
            ),
            final(self).alt_down == old(self).alt_down,
    {
        if let Some(i) = self.windows.idx(id) {
            let ghost s = self.windows.list@;
            assert(s[i as int].paint.exposed matches Some(o) ==> window::exposure_bounds(o));
            if self.windows.list[i].w != w || self.windows.list[i].h != h {
                self.windows.list[i].w = w;
                self.windows.list[i].h = h;
                self.windows.list[i].paint.needs_paint = true;
                proof {
                    let next = Win { w, h, ..dirty(win(s, id)) };
                    with_win_keeps(s, id, next);
                    assert(self.windows.list@ =~= with_win(s, id, next));
                }
            }
        }
    }

    fn on_map(&mut self, id: u32) -> (r: bool)
        requires
            old(self).wf(),
        ensures
            final(self).wf(),
            r == known(old(self).windows.list@, id),
            old(self).with_table(
                *final(self),
                if r {
                    with_win(
                        old(self).windows.list@,
                        id,
                        now_mapped(win(old(self).windows.list@, id)),
                    )
                } else {
                    old(self).windows.list@
                },
            ),
            final(self).alt_down == old(self).alt_down,
    {
        if let Some(i) = self.windows.idx(id) {
            let ghost s = self.windows.list@;
            assert(s[i as int].paint.exposed matches Some(o) ==> window::exposure_bounds(o));
            self.windows.list[i].shown.mapped = true;
            self.windows.list[i].shown.minimized = false;
            self.windows.list[i].paint.needs_paint = true;
            proof {
                with_win_keeps(s, id, now_mapped(win(s, id)));
                assert(self.windows.list@ =~= with_win(s, id, now_mapped(win(s, id))));
            }
            true
        } else {
            false
        }
    }

    fn on_unmap(&mut self, id: u32) -> (r: bool)
        requires
            old(self).wf(),
        ensures
            final(self).wf(),
            r == known(old(self).windows.list@, id),
            old(self).with_table(
                *final(self),
                if r {
                    with_win(
                        old(self).windows.list@,
                        id,
                        Win {
                            shown: (ShowState {
                                mapped: false,
                                ..win(old(self).windows.list@, id).shown
                            }),
                            ..win(old(self).windows.list@, id)
                        },
                    )
                } else {
                    old(self).windows.list@
                },
            ),
            final(self).alt_down == old(self).alt_down,
    {
        if let Some(i) = self.windows.idx(id) {
            let ghost s = self.windows.list@;
            assert(s[i as int].paint.exposed matches Some(o) ==> window::exposure_bounds(o));
            self.windows.list[i].shown.mapped = false;
            proof {
                let w = win(s, id);
                let next = Win { shown: (ShowState { mapped: false, ..w.shown }), ..w };
                with_win_keeps(s, id, next);
                assert(self.windows.list@ =~= with_win(s, id, next));
            }
            true
        } else {
            false
        }
    }

    fn on_motion(
        &mut self,
        id: u32,
        x: i16,
        y: i16,
        root_x: i16,
        root_y: i16,
        state: u16,
        slop: i32,
    ) -> (r: Reaction)
        requires
            old(self).wf(),
        ensures
            final(self).wf(),
            ({
                let (s, reaction) = reaction_to(
                    old(self).windows.list@,
                    old(self).atoms,
                    old(self).root,
                    slop,
                    XEvent::Motion { window: id, x, y, root_x, root_y, state },
                );
                old(self).with_table(*final(self), s) && r == reaction
            }),
            final(self).alt_down == old(self).alt_down,
    {
        let i: usize = match self.windows.idx(id) {
            Some(i) => i,
            None => {
                return Reaction::Nothing;
            },
        };
        let ghost s = self.windows.list@;
        assert(s[i as int].paint.exposed matches Some(o) ==> window::exposure_bounds(o));
        let motion = input::pending_drag_motion(
            &mut self.windows.list[i].pointer,
            root_x,
            root_y,
            slop,
        );
        match motion {
            DragMotion::Waiting => {
                assert(self.windows.list@ =~= s);
                Reaction::Nothing
            },
            DragMotion::HandOver { x: x0, y: y0, direction } => {
                proof {
                    let w = win(s, id);
                    let next = Win {
                        pointer: (PointerState { pending_drag: None, ..w.pointer }),
                        ..w
                    };
                    with_win_keeps(s, id, next);
                    assert(self.windows.list@ =~= with_win(s, id, next));
                }
                Reaction::HandOver { window: id, x: x0, y: y0, direction }
            },
            DragMotion::Free => {
                assert(self.windows.list@ =~= s);
                if self.accepts(id) {
                    Reaction::Pointer { window: id, event: pointer_move(x as i32, y as i32, state) }
                } else {
                    Reaction::Nothing
                }
            },
        }
    }
}

/// The frame of a window.
pub open spec fn frame_of(w: Win) -> Frame {
    Frame {
        frameless: w.frameless,
        resizable: w.resizable,
        maximized: w.shown.maximized,
        w: w.w,
        h: w.h,
    }
}

/// The table and the outcome after a button event.
pub open spec fn after_button(s: Seq<Win>, e: ButtonEvent, hit: HitTest, m: Metrics) -> (
    Seq<Win>,
    ButtonOutcome,
) {
    if !known(s, e.window) {
        (s, ButtonOutcome::Ignored)
    } else {
        match window::blocker(s, e.window) {
            Some(modal) => (
                s,
                if e.press { ButtonOutcome::Raise(modal) } else { ButtonOutcome::Ignored },
            ),
            None => {
                let w = win(s, e.window);
                let (pointer, outcome) = input::button_on(w.pointer, frame_of(w), e, hit, m);
                (with_win(s, e.window, Win { pointer, ..w }), outcome)
            },
        }
    }
}

/// How a window stands, as its content is told.
#[derive(Clone, Copy, Debug, PartialEq, Eq, Structural)]
pub struct WindowState {
    pub maximized: bool,
    pub minimized: bool,
    pub visible: bool,
    pub maximizable: bool,
    pub minimizable: bool,
}

/// What a request to close comes to.
#[derive(Clone, Copy, Debug, PartialEq, Eq, Structural)]
pub enum CloseStep {
    /// There is no such window.
    Unknown,
    /// A modal window is open: bring it to the front instead, or it would go down with its
    /// owner and never be asked.
    Raise(u32),
    /// Ask the content, and report its answer to [`Session::close_answered`].
    Ask,
}

/// What the window manager is asked.
#[derive(Clone, Copy, Debug, PartialEq, Eq, Structural)]
pub enum WmCall {
    Nothing,
    Iconify,
    /// Restore, maximise or switch: the action code of the state message.
    SetMaximized(u32),
    Show,
    Unmap,
}

/// What an intent asks of the window manager.
pub open spec fn call_for(w: Win, op: WindowOp) -> WmCall {
    match op {
        WindowOp::Minimize => WmCall::Iconify,
        WindowOp::ToggleMaximize => WmCall::SetMaximized(2),
        WindowOp::Maximize => WmCall::SetMaximized(1),
        WindowOp::Restore => if w.shown.minimized || !w.shown.mapped {
            WmCall::Show
        } else {
            WmCall::SetMaximized(0)
        },
        WindowOp::Show => WmCall::Show,
        WindowOp::Hide => WmCall::Unmap,
    }
}

/// The state that the window manager's property tells.
pub open spec fn reported_state(shown: ShowState, a: Atoms, atoms: Seq<u32>) -> ShowState {
    ShowState {
        maximized: atoms.contains(a.maximized_vert) && atoms.contains(a.maximized_horz),
        minimized: atoms.contains(a.state_hidden),
        ..shown
    }
}

/// A table in which every window but `except` asks for a frame.
pub open spec fn all_dirty(s: Seq<Win>, except: Option<u32>) -> Seq<Win> {
    Seq::new(s.len(), |i: int| if except == Some(s[i].id) { s[i] } else { dirty(s[i]) })
}

/// Some mapped window asks for a frame.
pub open spec fn any_due(s: Seq<Win>) -> bool {
    exists|i: int|
        0 <= i < s.len() && (#[trigger] s[i]).paint.needs_paint && s[i].shown.mapped
}

impl Session {
    /// A button. `hit` is what the content says of the point; it matters for a left press on a
    /// frameless window only.
    pub fn on_button(&mut self, e: ButtonEvent, hit: HitTest, m: Metrics) -> (r: ButtonOutcome)
        requires
            old(self).wf(),
        ensures
            final(self).wf(),
            old(self).with_table(
                *final(self),
                after_button(old(self).windows.list@, e, hit, m).0,
            ),
            final(self).alt_down == old(self).alt_down,
            r == after_button(old(self).windows.list@, e, hit, m).1,
    {
        let i: usize = match self.windows.idx(e.window) {
            Some(i) => i,
            None => {
                return ButtonOutcome::Ignored;
            },
        };
        if let Some(modal) = self.windows.blocked_by_modal(e.window) {
            return if e.press {
                ButtonOutcome::Raise(modal)
            } else {
                ButtonOutcome::Ignored
            };
        }
        let ghost s = self.windows.list@;
        assert(s[i as int].paint.exposed matches Some(o) ==> window::exposure_bounds(o));
        let frame = Frame {
            frameless: self.windows.list[i].frameless,
            resizable: self.windows.list[i].resizable,
            maximized: self.windows.list[i].shown.maximized,
            w: self.windows.list[i].w,
            h: self.windows.list[i].h,
        };
        let outcome = input::button_input(&mut self.windows.list[i].pointer, frame, e, hit, m);
        proof {
            let w = win(s, e.window);
            let next = Win {
                pointer: input::button_on(w.pointer, frame_of(w), e, hit, m).0,
                ..w
            };
            with_win_keeps(s, e.window, next);
            assert(self.windows.list@ =~= with_win(s, e.window, next));
        }
        outcome
    }

    /// A key that the input method did not take: what is delivered to the content, in order.
    /// A window that does not take input gets nothing.
    pub fn on_key(
        &mut self,
        keymap: &Keymap,
        id: u32,
        keycode: u8,
        state: u16,
        press: bool,
    ) -> (r: Vec<KeyEvent>)
        requires
            old(self).wf(),
        ensures
            final(self).wf(),
            old(self).with_table(*final(self), old(self).windows.list@),
            takes_input(old(self).windows.list@, id) ==> (r@, final(self).alt_down)
                == input::key_events(keymap@, keycode, state, press, old(self).alt_down),
            !takes_input(old(self).windows.list@, id) ==> r@ == Seq::<KeyEvent>::empty()
                && final(self).alt_down == old(self).alt_down,
    {
        if !self.accepts(id) {
            return Vec::new();
        }
        input::key_input(keymap, keycode, state, press, &mut self.alt_down)
    }

    /// The content took an event; `repaint` is its answer.
    pub fn content_done(&mut self, id: u32, repaint: bool)
        requires
            old(self).wf(),
        ensures
            final(self).wf(),
            old(self).with_table(
                *final(self),
                if known(old(self).windows.list@, id) {
                    with_win(
                        old(self).windows.list@,
                        id,
                        dirty_if(win(old(self).windows.list@, id), repaint),
                    )
                } else {
                    old(self).windows.list@
                },
            ),
            final(self).alt_down == old(self).alt_down,
    {
        if let Some(i) = self.windows.idx(id) {
            let ghost s = self.windows.list@;
            assert(s[i as int].paint.exposed matches Some(o) ==> window::exposure_bounds(o));
            if repaint {
                self.windows.list[i].paint.needs_paint = true;
            }
            proof {
                with_win_keeps(s, id, dirty_if(win(s, id), repaint));
                assert(self.windows.list@ =~= with_win(s, id, dirty_if(win(s, id), repaint)));
            }
        }
    }

    /// The content took a pointer event; `capturing` says whether it holds the pointer now.
    pub fn pointer_done(&mut self, id: u32, repaint: bool, capturing: bool)
        requires
            old(self).wf(),
        ensures
            final(self).wf(),
            old(self).with_table(
                *final(self),
                if known(old(self).windows.list@, id) {
                    let w = dirty_if(win(old(self).windows.list@, id), repaint);
                    with_win(
                        old(self).windows.list@,
                        id,
                        Win { pointer: (PointerState { capturing, ..w.pointer }), ..w },
                    )
                } else {
                    old(self).windows.list@
                },
            ),
            final(self).alt_down == old(self).alt_down,
    {
        if let Some(i) = self.windows.idx(id) {
            let ghost s = self.windows.list@;
            assert(s[i as int].paint.exposed matches Some(o) ==> window::exposure_bounds(o));
            self.windows.list[i].pointer.capturing = capturing;
            if repaint {
                self.windows.list[i].paint.needs_paint = true;
            }
            proof {
                let w = dirty_if(win(s, id), repaint);
                let next = Win { pointer: (PointerState { capturing, ..w.pointer }), ..w };
                with_win_keeps(s, id, next);
                assert(self.windows.list@ =~= with_win(s, id, next));
            }
        }
    }

    /// A window gained or lost the focus. Losing it ends the capture of the pointer, since the
    /// release will not come here any more, and forgets Alt. Says whether the content is to be
    /// told of a lost capture; `None` for an unknown window.
    pub fn activated(&mut self, id: u32, active: bool) -> (r: Option<bool>)
        requires
            old(self).wf(),
        ensures
            final(self).wf(),
            r == (if known(old(self).windows.list@, id) {
                Some(!active && win(old(self).windows.list@, id).pointer.capturing)
            } else {
                None
            }),
            old(self).with_table(
                *final(self),
                if known(old(self).windows.list@, id) && !active {
                    let w = win(old(self).windows.list@, id);
                    with_win(
                        old(self).windows.list@,
                        id,
                        Win { pointer: (PointerState { capturing: false, ..w.pointer }), ..w },
                    )
                } else {
                    old(self).windows.list@
                },
            ),
            final(self).alt_down == (old(self).alt_down && (active || !known(
                old(self).windows.list@,
                id,
            ))),
    {
        if let Some(i) = self.windows.idx(id) {
            if active {
                return Some(false);
            }
            let ghost s = self.windows.list@;
            assert(s[i as int].paint.exposed matches Some(o) ==> window::exposure_bounds(o));
            self.alt_down = false;
            let lost = self.windows.list[i].pointer.capturing;
            self.windows.list[i].pointer.capturing = false;
            proof {
                let w = win(s, id);
                let next = Win { pointer: (PointerState { capturing: false, ..w.pointer }), ..w };
                with_win_keeps(s, id, next);
                assert(self.windows.list@ =~= with_win(s, id, next));
            }
            Some(lost)
        } else {
            None
        }
    }

    /// A composition to display, or the end of one; says whether the content gets it. A blocked
    /// window gets no new composition, but a running one can still end; the end of none is not
    /// news.
    pub fn dispatch_preedit(&mut self, id: u32, active: bool) -> (r: bool)
        requires
            old(self).wf(),
        ensures
            final(self).wf(),
            r == (known(old(self).windows.list@, id) && if active {
                window::blocker(old(self).windows.list@, id) is None
            } else {
                win(old(self).windows.list@, id).composing
            }),
            old(self).with_table(
                *final(self),
                if r {
                    with_win(
                        old(self).windows.list@,
                        id,
                        Win { composing: active, ..win(old(self).windows.list@, id) },
                    )
                } else {
                    old(self).windows.list@
                },
            ),
            final(self).alt_down == old(self).alt_down,
    {
        if let Some(i) = self.windows.idx(id) {
            if active && self.windows.blocked_by_modal(id).is_some() {
                return false;
            }
            if !active && !self.windows.list[i].composing {
                return false;
            }
            let ghost s = self.windows.list@;
            assert(s[i as int].paint.exposed matches Some(o) ==> window::exposure_bounds(o));
            self.windows.list[i].composing = active;
            proof {
                let next = Win { composing: active, ..win(s, id) };
                with_win_keeps(s, id, next);
                assert(self.windows.list@ =~= with_win(s, id, next));
            }
            true
        } else {
            false
        }
    }

    /// A composition is to be given up: reset the input method, then end the display.
    pub fn composing(&self, id: u32) -> (r: bool)
        ensures
            r == (known(self.windows.list@, id) && win(self.windows.list@, id).composing),
    {
        match self.windows.idx(id) {
            Some(i) => self.windows.list[i].composing,
            None => false,
        }
    }

    /// The close button, or a request to close.
    pub fn request_close(&self, id: u32) -> (r: CloseStep)
        ensures
            r == (if !known(self.windows.list@, id) {
                CloseStep::Unknown
            } else {
                match window::blocker(self.windows.list@, id) {
                    Some(m) => CloseStep::Raise(m),
                    None => CloseStep::Ask,
                }
            }),
    {
        if self.windows.idx(id).is_none() {
            return CloseStep::Unknown;
        }
        match self.windows.blocked_by_modal(id) {
            Some(m) => CloseStep::Raise(m),
            None => CloseStep::Ask,
        }
    }

    /// The content's answer to a request to close: the windows that go, in order. A refusal
    /// closes none and asks for a frame, for the content may want to say why.
    pub fn close_answered(&mut self, id: u32, allow: bool) -> (r: Vec<u32>)
        requires
            old(self).wf(),
        ensures
            final(self).wf(),
            allow && known(old(self).windows.list@, id) ==> r@ == window::close_order(
                old(self).windows.list@,
                window::position(old(self).windows.list@, id),
            ) && old(self).with_table(
                *final(self),
                window::without(old(self).windows.list@, r@),
            ),
            !allow && known(old(self).windows.list@, id) ==> r@ == Seq::<u32>::empty() && old(
                self,
            ).with_table(
                *final(self),
                with_win(
                    old(self).windows.list@,
                    id,
                    dirty(win(old(self).windows.list@, id)),
                ),
            ),
            !known(old(self).windows.list@, id) ==> r@ == Seq::<u32>::empty() && old(
                self,
            ).with_table(*final(self), old(self).windows.list@),
            final(self).alt_down == old(self).alt_down,
    {
        if self.windows.idx(id).is_none() {
            return Vec::new();
        }
        if allow {
            self.windows.close_window(id)
        } else {
            self.content_done(id, true);
            Vec::new()
        }
    }

    /// The window manager's state property was read. Says whether the window is to be unmapped:
    /// it was just minimised, and minimising hides it.
    pub fn refresh_wm_state(&mut self, id: u32, atoms: &[u32], hide_on_minimize: bool) -> (r: bool)
        requires
            old(self).wf(),
        ensures
            final(self).wf(),
            ({
                let s = old(self).windows.list@;
                let w = win(s, id);
                let shown = reported_state(w.shown, old(self).atoms, atoms@);
                let unmap = known(s, id) && shown.minimized && !w.shown.minimized
                    && hide_on_minimize;
                let after = ShowState { hidden: w.shown.hidden || unmap, ..shown };
                &&& r == unmap
                &&& old(self).with_table(
                    *final(self),
                    if known(s, id) {
                        with_win(s, id, Win { shown: after, ..w })
                    } else {
                        s
                    },
                )
            }),
            final(self).alt_down == old(self).alt_down,
    {
        if let Some(i) = self.windows.idx(id) {
            let ghost s = self.windows.list@;
            assert(s[i as int].paint.exposed matches Some(o) ==> window::exposure_bounds(o));
            let maximized = has_atom(atoms, self.atoms.maximized_vert) && has_atom(
                atoms,
                self.atoms.maximized_horz,
            );
            let minimized = has_atom(atoms, self.atoms.state_hidden);
            let unmap = minimized && !self.windows.list[i].shown.minimized && hide_on_minimize;
            self.windows.list[i].shown.maximized = maximized;
            self.windows.list[i].shown.minimized = minimized;
            if unmap {
                self.windows.list[i].shown.hidden = true;
            }
            proof {
                let w = win(s, id);
                let shown = reported_state(w.shown, old(self).atoms, atoms@);
                let after = ShowState { hidden: w.shown.hidden || unmap, ..shown };
                let next = Win { shown: after, ..w };
                with_win_keeps(s, id, next);
                assert(self.windows.list@ =~= with_win(s, id, next));
            }
            unmap
        } else {
            false
        }
    }

    /// How a window stands, for its content, which also gets a frame.
    pub fn report_state(&mut self, id: u32) -> (r: Option<WindowState>)
        requires
            old(self).wf(),
        ensures
            final(self).wf(),
            ({
                let s = old(self).windows.list@;
                let w = win(s, id);
                &&& r == (if known(s, id) {
                    Some(
                        WindowState {
                            maximized: w.shown.maximized,
                            minimized: w.shown.minimized,
                            visible: w.shown.mapped || w.shown.minimized,
                            maximizable: w.resizable,
                            minimizable: true,
                        },
                    )
                } else {
                    None
                })
                &&& old(self).with_table(
                    *final(self),
                    if known(s, id) { with_win(s, id, dirty(w)) } else { s },
                )
            }),
            final(self).alt_down == old(self).alt_down,
    {
        let i: usize = match self.windows.idx(id) {
            Some(i) => i,
            None => {
                return None;
            },
        };
        let shown = self.windows.list[i].shown;
        let resizable = self.windows.list[i].resizable;
        self.content_done(id, true);
        Some(
            WindowState {
                maximized: shown.maximized,
                minimized: shown.minimized,
                visible: shown.mapped || shown.minimized,
                maximizable: resizable,
                minimizable: true,
            },
        )
    }

    /// A window is shown. Says whether that is news to its content: it was hidden before. The
    /// host maps and raises the window in any case.
    pub fn show(&mut self, id: u32) -> (r: bool)
        requires
            old(self).wf(),
        ensures
            final(self).wf(),
            r == (known(old(self).windows.list@, id) && win(
                old(self).windows.list@,
                id,
            ).shown.hidden),
            old(self).with_table(
                *final(self),
                if known(old(self).windows.list@, id) {
                    let w = win(old(self).windows.list@, id);
                    with_win(
                        old(self).windows.list@,
                        id,
                        Win { shown: (ShowState { hidden: false, ..w.shown }), ..w },
                    )
                } else {
                    old(self).windows.list@
                },
            ),
            final(self).alt_down == old(self).alt_down,
    {
        if let Some(i) = self.windows.idx(id) {
            let ghost s = self.windows.list@;
            assert(s[i as int].paint.exposed matches Some(o) ==> window::exposure_bounds(o));
            let hidden = self.windows.list[i].shown.hidden;
            self.windows.list[i].shown.hidden = false;
            proof {
                let w = win(s, id);
                let next = Win { shown: (ShowState { hidden: false, ..w.shown }), ..w };
                with_win_keeps(s, id, next);
                assert(self.windows.list@ =~= with_win(s, id, next));
            }
            hidden
        } else {
            false
        }
    }

    /// A window intent. Hiding is remembered, so that showing is news.
    pub fn apply_window_op(&mut self, id: u32, op: WindowOp) -> (r: WmCall)
        requires
            old(self).wf(),
        ensures
            final(self).wf(),
            ({
                let s = old(self).windows.list@;
                let w = win(s, id);
                &&& r == (if known(s, id) { call_for(w, op) } else { WmCall::Nothing })
                &&& old(self).with_table(
                    *final(self),
                    if known(s, id) && op == WindowOp::Hide {
                        with_win(s, id, Win { shown: (ShowState { hidden: true, ..w.shown }), ..w })
                    } else {
                        s
                    },
                )
            }),
            final(self).alt_down == old(self).alt_down,
    {
        let i: usize = match self.windows.idx(id) {
            Some(i) => i,
            None => {
                return WmCall::Nothing;
            },
        };
        match op {
            WindowOp::Minimize => WmCall::Iconify,
            WindowOp::ToggleMaximize => WmCall::SetMaximized(2),
            WindowOp::Maximize => WmCall::SetMaximized(1),
            WindowOp::Restore => {
                if self.windows.list[i].shown.minimized || !self.windows.list[i].shown.mapped {
                    WmCall::Show
                } else {
                    WmCall::SetMaximized(0)
                }
            },
            WindowOp::Show => WmCall::Show,
            WindowOp::Hide => {
                let ghost s = self.windows.list@;
                assert(s[i as int].paint.exposed matches Some(o) ==> window::exposure_bounds(o));
                self.windows.list[i].shown.hidden = true;
                proof {
                    let w = win(s, id);
                    let next = Win { shown: (ShowState { hidden: true, ..w.shown }), ..w };
                    with_win_keeps(s, id, next);
                    assert(self.windows.list@ =~= with_win(s, id, next));
                }
                WmCall::Unmap
            },
        }
    }

    /// Remembers the cursor of a window.
    pub fn set_cursor(&mut self, id: u32, cursor: CursorShape)
        requires
            old(self).wf(),
        ensures
            final(self).wf(),
            old(self).with_table(
                *final(self),
                if known(old(self).windows.list@, id) {
                    with_win(
                        old(self).windows.list@,
                        id,
                        Win { cursor, ..win(old(self).windows.list@, id) },
                    )
                } else {
                    old(self).windows.list@
                },
            ),
            final(self).alt_down == old(self).alt_down,
    {
        if let Some(i) = self.windows.idx(id) {
            let ghost s = self.windows.list@;
            assert(s[i as int].paint.exposed matches Some(o) ==> window::exposure_bounds(o));
            self.windows.list[i].cursor = cursor;
            proof {
                let next = Win { cursor, ..win(s, id) };
                with_win_keeps(s, id, next);
                assert(self.windows.list@ =~= with_win(s, id, next));
            }
        }
    }

    /// Every window asks for a frame, but for `except`.
    pub fn mark_all(&mut self, except: Option<u32>)
        requires
            old(self).wf(),
        ensures
            final(self).wf(),
            old(self).with_table(*final(self), all_dirty(old(self).windows.list@, except)),
            final(self).alt_down == old(self).alt_down,
    {
        let ghost s = self.windows.list@;
        let n: usize = self.windows.list.len();
        let mut i: usize = 0;
        while i < n
            invariant
                i <= n,
                n == s.len(),
                n == self.windows.list@.len(),
                old(self).with_table(*self, self.windows.list@),
                self.alt_down == old(self).alt_down,
                forall|j: int|
                    0 <= j < i ==> #[trigger] self.windows.list@[j] == all_dirty(s, except)[j],
                forall|j: int| i <= j < n ==> #[trigger] self.windows.list@[j] == s[j],
            decreases n - i,
        {
            let skip = match except {
                Some(e) => e == self.windows.list[i].id,
                None => false,
            };
            let ghost before = self.windows.list@;
            if !skip {
                self.windows.list[i].paint.needs_paint = true;
                assert(self.windows.list@ =~= before.update(i as int, dirty(s[i as int])));
            }
            i += 1;
        }
        proof {
            assert(self.windows.list@ =~= all_dirty(s, except));
            assert forall|j: int| 0 <= j < s.len() implies ((
            #[trigger] self.windows.list@[j]).paint.exposed matches Some(r)
                ==> window::exposure_bounds(r)) by {
                assert(s[j].paint.exposed matches Some(r) ==> window::exposure_bounds(r));
            }
            window::consistency_carries_over(s, self.windows.list@);
        }
    }

    /// How long the loop may wait: not at all while a mapped window asks for a frame.
    pub fn wait_for(&self, next: Option<u64>) -> (r: Option<u64>)
        ensures
            r == (if any_due(self.windows.list@) { Some(0) } else { next }),
    {
        let mut i: usize = 0;
        while i < self.windows.list.len()
            invariant
                i <= self.windows.list@.len(),
                forall|j: int|
                    0 <= j < i ==> !((#[trigger] self.windows.list@[j]).paint.needs_paint
                        && self.windows.list@[j].shown.mapped),
            decreases self.windows.list@.len() - i,
        {
            if self.windows.list[i].paint.needs_paint && self.windows.list[i].shown.mapped {
                assert(any_due(self.windows.list@));
                return Some(0);
            }
            i += 1;
        }
        next
    }
}

fn has_atom(v: &[u32], x: u32) -> (r: bool)
    ensures
        r == v@.contains(x),
{
    let mut i: usize = 0;
    while i < v.len()
        invariant
            i <= v@.len(),
            forall|j: int| 0 <= j < i ==> v@[j] != x,
        decreases v@.len() - i,
    {
        if v[i] == x {
            assert(v@[i as int] == x);
            return true;
        }
        i += 1;
    }
    false
}

/// While a modal window is open, its owner gets no input: no pointer event, no key, and its
/// close button raises the modal window.
pub proof fn a_modal_window_blocks_its_owner(
    s: Seq<Win>,
    a: Atoms,
    root: u32,
    drag_slop: i32,
    id: u32,
    ev: XEvent,
)
    requires
        window::blocker(s, id) is Some,
        id != root,
    ensures
        !(reaction_to(s, a, root, drag_slop, ev).1 matches Reaction::Pointer { window, event: _ }
            && window == id),
        !(reaction_to(s, a, root, drag_slop, ev).1 matches Reaction::Key {
            window,
            keycode: _,
            state: _,
            press: _,
        } && window == id),
        forall|e: ButtonEvent, hit: HitTest, m: Metrics|
            e.window == id ==> !((#[trigger] after_button(s, e, hit, m)).1 is Deliver)
                && !(after_button(s, e, hit, m).1 is DeliverAfterAbort) && after_button(
                s,
                e,
                hit,
                m,
            ).0 == s,
{
}

fn pointer_move(x: i32, y: i32, state: u16) -> (r: PointerEvent)
    ensures
        r == move_event(x, y, state),
{
    PointerEvent {
        kind: PointerKind::Move,
        x,
        y,
        button: MouseButton::Left,
        click_count: 1,
        mods: input::mods_of(state),
    }
}

/// The one window of a consistent table with an id.
proof fn the_window_is_found(s: Seq<Win>, i: int)
    requires
        window::consistent(s),
        0 <= i < s.len(),
    ensures
        window::position(s, s[i].id) == i,
{
    assert forall|j: int| 0 <= j < i implies (#[trigger] s[j]).id != s[i].id by {}
    window::position_is(s, s[i].id, i);
}

/// What a pointer event says of where it happened: the point of the window, and the modifiers of
/// the moment.
pub open spec fn happened_at(ev: PointerEvent, x: i16, y: i16, state: u16) -> bool {
    &&& ev.x == x && ev.y == y
    &&& ev.mods.shift == (state % 2 == 1) && ev.mods.ctrl == (state / 4 % 2 == 1)
    &&& ev.mods.alt == (state / 8 % 2 == 1) && ev.mods.meta == (state / 64 % 2 == 1)
}

/// A move of the pointer is delivered at the point to which it moved, to the window that it moved
/// in, as long as no drag of the frame is under way and no modal window is open over it. The
/// place on the screen does not matter to it.
pub proof fn moves_are_delivered_in_place(
    s: Seq<Win>,
    a: Atoms,
    root: u32,
    slop: i32,
    i: int,
    x: i16,
    y: i16,
    root_x: i16,
    root_y: i16,
    state: u16,
)
    requires
        window::consistent(s),
        0 <= i < s.len(),
    ensures
        ({
            let ev = XEvent::Motion { window: s[i].id, x, y, root_x, root_y, state };
            let (after, r) = reaction_to(s, a, root, slop, ev);
            let modal_open = exists|j: int|
                0 <= j < s.len() && (#[trigger] s[j]).modal && s[j].owner == Some(s[i].id);
            &&& r is Pointer <==> s[i].pointer.pending_drag is None && !modal_open
            &&& r matches Reaction::Pointer { window, event } ==> {
                &&& window == s[i].id
                &&& event.kind == PointerKind::Move
                &&& happened_at(event, x, y, state)
                &&& after == s
            }
        }),
{
    the_window_is_found(s, i);
    window::blocker_is_open(s, s[i].id);
    input::modifiers_are_bits(state);
    if let Some(m) = window::blocker(s, s[i].id) {
        let j = choose|j: int|
            0 <= j < s.len() && (#[trigger] s[j]).id == m && s[j].modal && s[j].owner == Some(
                s[i].id,
            );
        assert(s[j].modal && s[j].owner == Some(s[i].id));
    }
}

/// A press, a release or a step of the wheel is delivered where it happened: at the same point as
/// a move to there.
pub proof fn buttons_and_moves_agree(
    s: Seq<Win>,
    a: Atoms,
    root: u32,
    e: ButtonEvent,
    hit: HitTest,
    m: Metrics,
    root_x: i16,
    root_y: i16,
)
    ensures
        ({
            let motion = XEvent::Motion {
                window: e.window,
                x: e.x,
                y: e.y,
                root_x,
                root_y,
                state: e.state,
            };
            let moved = reaction_to(s, a, root, m.drag_slop, motion).1;
            let pressed = input::delivered(after_button(s, e, hit, m).1);
            &&& pressed matches Some(p) ==> happened_at(p, e.x, e.y, e.state)
            &&& moved matches Reaction::Pointer { window, event } ==> window == e.window
                && happened_at(event, e.x, e.y, e.state)
            &&& moved is Pointer && pressed is Some ==> pressed.unwrap().x
                == moved->Pointer_event.x && pressed.unwrap().y == moved->Pointer_event.y
                && pressed.unwrap().mods == moved->Pointer_event.mods
        }),
{
    input::modifiers_are_bits(e.state);
    if known(s, e.window) {
        let w = win(s, e.window);
        input::buttons_are_delivered_in_place(w.pointer, frame_of(w), e, hit, m);
    }
}

/// The pointer leaves a window for a place that is no pixel of it. A leave that a grab causes, or
/// one with a button held down, is none: the release is still to come.
pub proof fn the_pointer_leaves_outside(
    s: Seq<Win>,
    a: Atoms,
    root: u32,
    slop: i32,
    id: u32,
    normal: bool,
    state: u16,
)
    ensures
        ({
            let r = reaction_to(s, a, root, slop, XEvent::Leave { window: id, normal, state }).1;
            let held = state / 0x100 % 0x20 != 0;
            &&& r matches Reaction::Pointer { window, event } ==> {
                &&& normal && !held
                &&& window == id && event.kind == PointerKind::Move
                &&& event.x < 0 && event.y < 0
            }
            &&& normal && !held && takes_input(s, id) ==> r is Pointer
            &&& !(r is Pointer) ==> r is Nothing
        }),
{
    assert((state & 0x1f00 == 0) == (state / 0x100 % 0x20 == 0)) by (bit_vector);
}

/// An event changes at most the window that it is about, and of no window what it is, whose it is
/// or whether it is modal; no event opens or closes one.
pub proof fn events_keep_to_their_window(
    s: Seq<Win>,
    a: Atoms,
    root: u32,
    slop: i32,
    ev: XEvent,
    i: int,
)
    requires
        window::consistent(s),
        0 <= i < s.len(),
    ensures
        ({
            let after = reaction_to(s, a, root, slop, ev).0;
            let about = match ev {
                XEvent::Expose { window, .. } => Some(window),
                XEvent::Configure { window, .. } => Some(window),
                XEvent::Mapped { window } => Some(window),
                XEvent::Unmapped { window } => Some(window),
                XEvent::Motion { window, .. } => Some(window),
                _ => None,
            };
            &&& after.len() == s.len()
            &&& about != Some(s[i].id) ==> after[i] == s[i]
            &&& after[i].id == s[i].id && after[i].owner == s[i].owner && after[i].modal == s[i].modal
            &&& after[i].single == s[i].single && after[i].frameless == s[i].frameless
            &&& after[i].resizable == s[i].resizable && after[i].intervals == s[i].intervals
            &&& after[i].cursor == s[i].cursor && after[i].composing == s[i].composing
            &&& after[i].pixmap == s[i].pixmap
            &&& after[i].pointer.click == s[i].pointer.click && after[i].pointer.capturing
                == s[i].pointer.capturing && after[i].pointer.swallow_up == s[i].pointer.swallow_up
            &&& (after[i].w != s[i].w || after[i].h != s[i].h) ==> ev is Configure
            &&& after[i].shown != s[i].shown ==> ev is Mapped || ev is Unmapped
            &&& after[i].paint.exposed != s[i].paint.exposed ==> ev is Expose
            &&& s[i].paint.needs_paint ==> after[i].paint.needs_paint
            &&& after[i].paint.fresh == s[i].paint.fresh
        }),
{
    window::position_finds(
        s,
        match ev {
            XEvent::Expose { window, .. } => window,
            XEvent::Configure { window, .. } => window,
            XEvent::Mapped { window } => window,
            XEvent::Unmapped { window } => window,
            XEvent::Motion { window, .. } => window,
            _ => 0,
        },
    );
}

/// Exposed areas add up: each pixel that was exposed is still to be sent, whichever came first.
pub proof fn exposures_add_up(
    s: Seq<Win>,
    a: Atoms,
    root: u32,
    slop: i32,
    i: int,
    left: u16,
    top: u16,
    w: u16,
    h: u16,
    px: int,
    py: int,
)
    requires
        window::consistent(s),
        0 <= i < s.len(),
    ensures
        ({
            let ev = XEvent::Expose { window: s[i].id, left, top, w, h };
            let (after, r) = reaction_to(s, a, root, slop, ev);
            &&& r is Nothing
            &&& after[i].paint.exposed matches Some(e) && {
                &&& left <= px < left + w && top <= py < top + h ==> e.has(px, py)
                &&& (s[i].paint.exposed matches Some(o) ==> (o.has(px, py) ==> e.has(px, py)))
                &&& s[i].paint.exposed is None ==> (e.has(px, py) <==> left <= px < left + w && top
                    <= py < top + h)
            }
            &&& after[i].paint.needs_paint == s[i].paint.needs_paint
        }),
{
    the_window_is_found(s, i);
    let r = Rect { x: left as i32, y: top as i32, w: w as i32, h: h as i32 };
    if let Some(o) = s[i].paint.exposed {
        assert(s[i].paint.exposed matches Some(q) ==> window::exposure_bounds(q));
        if o.has(px, py) || r.has(px, py) {
            crate::geometry::join_covers_both(o, r, px, py);
        }
    }
}

/// A window takes on the size that it is told, and asks for a frame exactly when that is another
/// than it had.
pub proof fn sizes_are_taken_on(
    s: Seq<Win>,
    a: Atoms,
    root: u32,
    slop: i32,
    i: int,
    w: u16,
    h: u16,
)
    requires
        window::consistent(s),
        0 <= i < s.len(),
    ensures
        ({
            let ev = XEvent::Configure { window: s[i].id, w, h };
            let (after, r) = reaction_to(s, a, root, slop, ev);
            &&& r is Nothing
            &&& after[i].w == w && after[i].h == h
            &&& after[i].paint.needs_paint <==> s[i].paint.needs_paint || s[i].w != w || s[i].h != h
        }),
{
    the_window_is_found(s, i);
}

/// A window that is mapped is on the screen, is not minimised and asks for a frame; one that is
/// unmapped is off the screen. Either is reported. Being mapped says nothing of whether it is
/// hidden or maximised.
pub proof fn mapping_is_reported(s: Seq<Win>, a: Atoms, root: u32, slop: i32, i: int)
    requires
        window::consistent(s),
        0 <= i < s.len(),
    ensures
        ({
            let (on, r) = reaction_to(s, a, root, slop, XEvent::Mapped { window: s[i].id });
            let (off, q) = reaction_to(s, a, root, slop, XEvent::Unmapped { window: s[i].id });
            &&& r == Reaction::ReportState(s[i].id) && q == Reaction::ReportState(s[i].id)
            &&& on[i].shown.mapped && !on[i].shown.minimized && on[i].paint.needs_paint
            &&& !off[i].shown.mapped && off[i].shown.minimized == s[i].shown.minimized
            &&& off[i].paint == s[i].paint
            &&& on[i].shown.hidden == s[i].shown.hidden && on[i].shown.maximized
                == s[i].shown.maximized
            &&& off[i].shown.hidden == s[i].shown.hidden && off[i].shown.maximized
                == s[i].shown.maximized
        }),
{
    the_window_is_found(s, i);
}

/// A window that is not in the table is not delivered to and does not change it.
pub proof fn strangers_are_ignored(s: Seq<Win>, a: Atoms, root: u32, slop: i32, id: u32, ev: XEvent)
    requires
        forall|j: int| 0 <= j < s.len() ==> (#[trigger] s[j]).id != id,
    ensures
        match ev {
            XEvent::Expose { window, .. } => window == id ==> reaction_to(s, a, root, slop, ev) == (
                s,
                Reaction::Nothing,
            ),
            XEvent::Configure { window, .. } => window == id ==> reaction_to(s, a, root, slop, ev) == (
                s,
                Reaction::Nothing,
            ),
            XEvent::Mapped { window } => window == id ==> reaction_to(s, a, root, slop, ev) == (
                s,
                Reaction::Nothing,
            ),
            XEvent::Unmapped { window } => window == id ==> reaction_to(s, a, root, slop, ev) == (
                s,
                Reaction::Nothing,
            ),
            XEvent::Motion { window, .. } => window == id ==> reaction_to(s, a, root, slop, ev) == (
                s,
                Reaction::Nothing,
            ),
            XEvent::Leave { window, .. } => window == id ==> reaction_to(s, a, root, slop, ev) == (
                s,
                Reaction::Nothing,
            ),
            XEvent::Button(e) => e.window == id ==> forall|hit: HitTest, m: Metrics|
                #[trigger] after_button(s, e, hit, m) == (s, ButtonOutcome::Ignored),
            _ => true,
        },
{
    window::position_finds(s, id);
    if window::position(s, id) < s.len() {
        assert(s[window::position(s, id)].id == id);
    }
}

/// Keys on the root window are hot keys and count when pressed; the others go to their window,
/// pressed and released, with nothing lost of them.
pub proof fn keys_go_to_their_window(
    s: Seq<Win>,
    a: Atoms,
    root: u32,
    slop: i32,
    id: u32,
    code: u8,
    held: u16,
    down: bool,
)
    ensures
        ({
            let ev = XEvent::Key { window: id, keycode: code, state: held, press: down };
            let (after, r) = reaction_to(s, a, root, slop, ev);
            &&& after == s
            &&& r is Hotkey <==> id == root && down
            &&& r is Key ==> id != root
            &&& r matches Reaction::Hotkey { keycode, state } ==> keycode == code && state == held
            &&& r matches Reaction::Key { window, keycode, state, press } ==> window == id && keycode
                == code && state == held && press == down
            &&& id != root && !(r is Key) ==> exists|j: int|
                0 <= j < s.len() && (#[trigger] s[j]).modal && s[j].owner == Some(id)
            &&& r is Key ==> forall|j: int|
                0 <= j < s.len() ==> !((#[trigger] s[j]).modal && s[j].owner == Some(id))
        }),
{
    window::blocker_is_open(s, id);
    if let Some(m) = window::blocker(s, id) {
        let j = choose|j: int|
            0 <= j < s.len() && (#[trigger] s[j]).id == m && s[j].modal && s[j].owner == Some(id);
        assert(s[j].modal && s[j].owner == Some(id));
    }
}

/// A press on a window with a modal window over it raises that window, and changes nothing else;
/// a release there is nothing. On any other window of the table a button changes what the pointer
/// is in the middle of, in that window alone.
pub proof fn buttons_keep_to_their_window(
    s: Seq<Win>,
    e: ButtonEvent,
    hit: HitTest,
    m: Metrics,
    i: int,
)
    requires
        window::consistent(s),
        0 <= i < s.len(),
    ensures
        ({
            let (after, out) = after_button(s, e, hit, m);
            &&& after.len() == s.len()
            &&& s[i].id != e.window ==> after[i] == s[i]
            &&& after[i] == (Win { pointer: after[i].pointer, ..s[i] })
            &&& out matches ButtonOutcome::Raise(modal) ==> e.press && after == s && exists|j: int|
                0 <= j < s.len() && (#[trigger] s[j]).id == modal && s[j].modal && s[j].owner == Some(
                    e.window,
                )
            &&& s[i].modal && s[i].owner == Some(e.window) && (exists|k: int|
                0 <= k < s.len() && (#[trigger] s[k]).id == e.window) ==> after == s && (e.press
                == out is Raise) && (!e.press == out is Ignored)
        }),
{
    window::position_finds(s, e.window);
    window::blocker_is_open(s, e.window);
}

/// What a window is asked to be, the window manager is asked for: to maximise and to restore are
/// opposite, and a window that is off the screen is restored by showing it.
pub proof fn intents_are_asked_for(w: Win)
    ensures
        call_for(w, WindowOp::Maximize) == WmCall::SetMaximized(1),
        call_for(w, WindowOp::ToggleMaximize) == WmCall::SetMaximized(2),
        w.shown.mapped && !w.shown.minimized ==> call_for(w, WindowOp::Restore)
            == WmCall::SetMaximized(0),
        !w.shown.mapped ==> call_for(w, WindowOp::Restore) == call_for(w, WindowOp::Show),
        w.shown.minimized ==> call_for(w, WindowOp::Restore) == call_for(w, WindowOp::Show),
        call_for(w, WindowOp::Show) is Show,
        call_for(w, WindowOp::Hide) is Unmap,
        call_for(w, WindowOp::Minimize) is Iconify,
        forall|op: WindowOp| !(#[trigger] call_for(w, op) is Nothing),
{
}

/// A window is maximised when the window manager says so of its height and of its width, and
/// minimised when it says that the window is hidden; it says nothing else of it.
pub proof fn the_window_manager_tells_the_state(shown: ShowState, a: Atoms, atoms: Seq<u32>, at: u32)
    ensures
        ({
            let after = reported_state(shown, a, atoms);
            let more = reported_state(shown, a, atoms.push(at));
            &&& after.mapped == shown.mapped && after.hidden == shown.hidden
            &&& after.maximized ==> more.maximized
            &&& after.minimized ==> more.minimized
            &&& at == a.state_hidden ==> more.minimized
            &&& at == a.maximized_horz && atoms.contains(a.maximized_vert) ==> more.maximized
            &&& at == a.maximized_vert && atoms.contains(a.maximized_horz) ==> more.maximized
            &&& !after.minimized && at != a.state_hidden ==> !more.minimized
            &&& !after.maximized && at != a.maximized_horz && at != a.maximized_vert
                ==> !more.maximized
            &&& atoms.len() == 0 ==> !after.maximized && !after.minimized
            &&& atoms.len() == 0 && a.maximized_horz != a.maximized_vert ==> !more.maximized
        }),
{
    let more = atoms.push(at);
    assert forall|x: u32| more.contains(x) == (atoms.contains(x) || x == at) by {
        if atoms.contains(x) {
            let k = choose|k: int| 0 <= k < atoms.len() && atoms[k] == x;
            assert(more[k] == x);
        }
        assert(more[atoms.len() as int] == at);
    }
}

/// Every window but the one that is left out asks for a frame, and nothing else of them changes.
pub proof fn all_but_one_ask_for_a_frame(s: Seq<Win>, except: Option<u32>, i: int)
    requires
        0 <= i < s.len(),
    ensures
        all_dirty(s, except).len() == s.len(),
        except == Some(s[i].id) ==> all_dirty(s, except)[i] == s[i],
        except != Some(s[i].id) ==> all_dirty(s, except)[i].paint.needs_paint,
        ({
            let w = all_dirty(s, except)[i];
            w == (Win { paint: (PaintState { needs_paint: w.paint.needs_paint, ..s[i].paint }), ..s[i] })
        }),
        s[i].paint.needs_paint ==> all_dirty(s, except)[i] == s[i],
{
}

/// Messages of the window manager and of a drag are told apart by their atoms; the request to
/// close goes to the window that it names.
pub proof fn messages_are_told_apart(s: Seq<Win>, a: Atoms, root: u32, slop: i32, m: Message)
    ensures
        ({
            let (after, r) = reaction_to(s, a, root, slop, XEvent::Message(m));
            let drag = m.kind == a.xdnd_enter || m.kind == a.xdnd_position || m.kind == a.xdnd_leave
                || m.kind == a.xdnd_drop;
            &&& after == s
            &&& drag <==> r == Reaction::Dnd(m)
            &&& !drag && m.kind == a.wm_protocols && m.format == 32 && m.d0 == a.wm_delete_window
                <==> r == Reaction::RequestClose(m.window)
            &&& r is Dnd || r is RequestClose || r is Nothing
        }),
{
}

/// Changes of the focus, of the keyboard and of properties, and data that arrives, are passed on
/// as they are, but for a change of focus that a grab causes.
pub proof fn notices_are_passed_on(
    s: Seq<Win>,
    a: Atoms,
    root: u32,
    slop: i32,
    id: u32,
    flag: bool,
    grab: bool,
    x: u32,
    y: u32,
)
    ensures
        reaction_to(s, a, root, slop, XEvent::Focus { window: id, gained: flag, grab }).1 == (
        if grab {
            Reaction::Nothing
        } else {
            Reaction::Focus { window: id, gained: flag }
        }),
        (reaction_to(s, a, root, slop, XEvent::Mapping { keyboard: flag }).1 is ReloadKeymap) == flag,
        (reaction_to(s, a, root, slop, XEvent::Property { window: id, atom: x }).1
            == Reaction::RefreshState(id)) == (x == a.net_wm_state),
        (reaction_to(
            s,
            a,
            root,
            slop,
            XEvent::SelectionNotify { requestor: id, selection: x, property: y },
        ).1 == Reaction::DropData { requestor: id, property: y }) == (x == a.xdnd_selection),
{
}

/// The loop does not sleep while a window that is on the screen asks for a frame, and a window that
/// is not there does not keep it awake.
pub proof fn frames_on_the_screen_are_due(s: Seq<Win>, i: int)
    requires
        0 <= i < s.len(),
    ensures
        s[i].shown.mapped && s[i].paint.needs_paint ==> any_due(s),
        (forall|j: int|
            0 <= j < s.len() ==> !((#[trigger] s[j]).shown.mapped && s[j].paint.needs_paint))
            ==> !any_due(s),
        ({
            let f = frame_of(s[i]);
            f.frameless == s[i].frameless && f.resizable == s[i].resizable && f.maximized
                == s[i].shown.maximized && f.w == s[i].w && f.h == s[i].h
        }),
        dirty_if(s[i], true).paint.needs_paint,
        dirty_if(s[i], false) == s[i],
{
}

} // verus!
