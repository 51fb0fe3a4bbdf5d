//! The X11 session: windows, events, painting, timers and what follows an event.

use windui::event::{
    CursorShape, Hotkey, HotkeyCtx, HotkeyOp, Key, KeyEvent, Mods, MouseButton, PointerEvent,
    PointerKind, WindowOp,
};
use windui::geometry::{Color, Rect};
use windui::hotkey::HotkeyBinding;
use windui::linux::create::{
    owner_for, plan_window, push_icon, register, wm_class, Extent, NewWin, RootRect,
};
use windui::linux::followup::{cursor_index, FollowUp, Intents, Opening};
use windui::linux::hotkey::{begin_grab, ungrab, GrabStep, Hotkeys};
use windui::linux::input::{mods_of, ButtonEvent, ButtonOutcome, HitTest, Metrics};
use windui::linux::keys::{Keymap, CONTROL, LOCK, MOD1, MOD2, MOD4, SHIFT};
use windui::linux::paint::{
    begin_frame, end_frame, paint_step, pixel_format, take_exposed, upload, PaintStep, PixelFormat,
};
use windui::linux::session::{
    Atoms, CloseStep, Message, Reaction, Session, WindowState, WmCall, XEvent,
};
use windui::linux::timers::{
    animate, animates, animation_step, poll_timeout_ms, tick_timers, time_left, AnimationStep, Fired,
};
use windui::linux::window::{Win, Windows};
use windui::linux::{drag_files, motion, single_window_open, start_mode, StartMode};
use windui::event::DragEffect;
use windui::surface::ByteOrder;

const ROOT: u32 = 900;
const MS: u64 = 1_000_000;

fn atoms() -> Atoms {
    Atoms {
        wm_protocols: 1,
        wm_delete_window: 2,
        net_wm_state: 3,
        maximized_vert: 4,
        maximized_horz: 5,
        state_hidden: 6,
        xdnd_enter: 7,
        xdnd_position: 8,
        xdnd_status: 9,
        xdnd_leave: 10,
        xdnd_drop: 11,
        xdnd_finished: 12,
        xdnd_selection: 13,
        xdnd_action_copy: 14,
        text_uri_list: 15,
    }
}

fn metrics() -> Metrics {
    Metrics {
        slop: 4,
        drag_slop: 4,
        border: 6,
    }
}

fn wanted(owner: Option<u32>, modal: bool) -> NewWin {
    NewWin {
        w: 100,
        h: 60,
        min_w: 0,
        min_h: 0,
        bg: Color {
            r: 1,
            g: 2,
            b: 3,
            a: 255,
        },
        centered: false,
        resizable: true,
        frameless: false,
        modal,
        owner,
    }
}

/// Windows 10, 20 owned by 10, and 30 owned by 20; `modal` says whether 20 blocks 10.
fn session(modal: bool) -> Session {
    let mut windows = Windows::new();
    register(&mut windows, 10, wanted(None, true), Some("main".to_string()), &[], 0);
    register(&mut windows, 20, wanted(Some(10), modal), None, &[], 0);
    register(&mut windows, 30, wanted(Some(20), false), Some("leaf".to_string()), &[], 0);
    Session {
        windows,
        atoms: atoms(),
        root: ROOT,
        main: 10,
        alt_down: false,
    }
}

#[test]
fn registered_windows_start_hidden_from_nobody() {
    let s = session(true);
    let w = &s.windows.list[0];
    assert!(!w.modal, "a window without an owner blocks nothing");
    assert!(w.paint.fresh && w.paint.needs_paint && w.pixmap.is_none());
    assert!(!w.shown.mapped && !w.shown.hidden);
    assert_eq!(s.windows.blocked_by_modal(10), Some(20));
    assert_eq!(s.windows.blocked_by_modal(20), None);
    assert_eq!(s.windows.find_single("leaf"), Some(30));
    assert_eq!(s.windows.find_single("none"), None);
    assert_eq!(s.windows.open_keys(), ["main", "leaf"]);
    assert_eq!(owner_for(&s.windows, 10, true, false), Some(10));
    assert_eq!(owner_for(&s.windows, 10, false, false), None);
    assert_eq!(owner_for(&s.windows, 99, true, true), None);
}

#[test]
fn closing_takes_the_owned_windows_first() {
    let mut s = session(false);
    assert_eq!(s.request_close(10), CloseStep::Ask);
    assert_eq!(s.close_answered(10, false), Vec::<u32>::new());
    assert_eq!(s.close_answered(10, true), vec![30, 20, 10]);
    assert!(s.windows.list.is_empty());
    assert_eq!(s.request_close(10), CloseStep::Unknown);
    let mut s = session(false);
    assert_eq!(s.close_answered(30, true), vec![30]);
    assert_eq!(s.windows.list.len(), 2, "nothing else goes");
}

#[test]
fn a_modal_window_blocks_its_owner_until_it_closes() {
    let mut s = session(true);
    assert_eq!(s.request_close(10), CloseStep::Raise(20));
    assert!(!s.accepts(10) && s.accepts(20));
    let key = XEvent::Key {
        window: 10,
        keycode: 38,
        state: 0,
        press: true,
    };
    assert_eq!(s.handle_event(key, metrics()), Reaction::Nothing);
    let motion = XEvent::Motion {
        window: 10,
        x: 1,
        y: 1,
        root_x: 1,
        root_y: 1,
        state: 0,
    };
    assert_eq!(s.handle_event(motion, metrics()), Reaction::Nothing);
    assert!(!s.dispatch_preedit(10, true));
    s.close_answered(20, true);
    assert!(s.accepts(10));
    assert_eq!(s.request_close(10), CloseStep::Ask);
}

#[test]
fn windows_are_placed_and_described() {
    let mut n = wanted(None, false);
    n.centered = true;
    let plan = plan_window(n, None, 1000, 500);
    assert_eq!((plan.x, plan.y, plan.positioned), (450, 220, true));
    assert_eq!(plan.background, 0x0001_0203);
    assert!(!plan.dialog && !plan.modal && !plan.undecorated);
    n.owner = Some(10);
    n.modal = true;
    n.frameless = true;
    n.resizable = false;
    let over = RootRect {
        x: 50,
        y: 60,
        w: 51,
        h: 61,
    };
    let plan = plan_window(n, Some(over), 1000, 500);
    assert_eq!((plan.x, plan.y), (26, 60), "rounded towards zero");
    assert_eq!(plan.transient_for, Some(10));
    assert!(plan.dialog && plan.modal && plan.undecorated);
    let fixed = Some(Extent { w: 100, h: 60 });
    assert_eq!((plan.min_size, plan.max_size), (fixed, fixed));
    n.resizable = true;
    n.min_w = 40;
    let plan = plan_window(n, None, 1000, 500);
    assert_eq!(plan.min_size, Some(Extent { w: 40, h: 0 }));
    assert_eq!(plan.max_size, None);
    n.centered = false;
    let plan = plan_window(n, None, 1000, 500);
    assert_eq!((plan.x, plan.y, plan.positioned), (0, 0, false));
}

#[test]
fn icons_and_names() {
    let mut words = vec![7];
    push_icon(&mut words, 1, 1, &[0x11, 0x22, 0x33, 0x44, 0x99]);
    assert_eq!(words, vec![7, 1, 1, 0x4411_2233]);
    let names = |stem: Option<&str>| wm_class(stem.map(|s| s.to_string()));
    assert_eq!(names(Some("my-app")), ("my-app".to_string(), "My-app".to_string()));
    assert_eq!(names(Some("éa")), ("éa".to_string(), "éa".to_string()));
    assert_eq!(names(Some("")), (String::new(), String::new()));
    assert_eq!(names(None), ("windui".to_string(), "Windui".to_string()));
}

#[test]
fn exposures_add_up_until_they_are_sent() {
    let mut s = session(false);
    let expose = |left, top| XEvent::Expose {
        window: 10,
        left,
        top,
        w: 5,
        h: 5,
    };
    s.handle_event(expose(0, 0), metrics());
    s.handle_event(expose(20, 10), metrics());
    assert_eq!(s.windows.list[0].paint.exposed, Some(Rect::new(0, 0, 25, 15)));
    assert_eq!(take_exposed(&mut s.windows.list[0]), Some(Rect::new(0, 0, 25, 15)));
    assert_eq!(take_exposed(&mut s.windows.list[0]), None);
}

#[test]
fn a_window_is_painted_when_it_is_mapped() {
    let mut s = session(false);
    assert_eq!(paint_step(&s.windows.list[0]), PaintStep::Nothing);
    assert_eq!(s.wait_for(Some(7)), Some(7));
    assert_eq!(
        s.handle_event(XEvent::Mapped { window: 10 }, metrics()),
        Reaction::ReportState(10)
    );
    assert_eq!(paint_step(&s.windows.list[0]), PaintStep::Draw);
    assert_eq!(s.wait_for(Some(7)), Some(0), "a frame is due");
    let w = &mut s.windows.list[0];
    let bg = Color {
        r: 9,
        g: 8,
        b: 7,
        a: 255,
    };
    assert!(begin_frame(w, bg));
    assert!(w.paint.fresh);
    assert_eq!(
        w.pixmap.as_ref().map(|p| p.data().to_vec()),
        Some([9, 8, 7, 255].repeat(100 * 60))
    );
    assert_eq!(end_frame(w, Some(Rect::new(1, 1, 2, 2))), Rect::new(0, 0, 100, 60));
    assert_eq!(paint_step(w), PaintStep::Nothing);
    w.paint.exposed = Some(Rect::new(90, 50, 50, 50));
    assert_eq!(paint_step(w), PaintStep::Resend);
    assert!(begin_frame(w, bg));
    assert_eq!(
        end_frame(w, Some(Rect::new(1, 1, 2, 2))),
        Rect::new(1, 1, 99, 59),
        "what was drawn and what was lost"
    );
    let size = XEvent::Configure {
        window: 10,
        w: 50,
        h: 40,
    };
    s.handle_event(size, metrics());
    let w = &mut s.windows.list[0];
    assert!(w.paint.needs_paint && begin_frame(w, bg) && w.paint.fresh);
    w.w = 0;
    assert!(!begin_frame(w, bg), "there is nothing to draw on");
    (w.w, w.h) = (600_000_000, 1);
    assert!(w.pixmap.is_some());
    assert!(!begin_frame(w, bg) && w.pixmap.is_none(), "no buffer is so wide");
    assert_eq!(
        s.handle_event(XEvent::Unmapped { window: 10 }, metrics()),
        Reaction::ReportState(10)
    );
    assert_eq!(
        s.handle_event(XEvent::Mapped { window: 99 }, metrics()),
        Reaction::Nothing
    );
}

#[test]
fn pictures_are_sent_in_pieces() {
    let mut p = tiny_skia::Pixmap::new(4, 3).expect("a small buffer");
    for (i, b) in p.data_mut().iter_mut().enumerate() {
        *b = i as u8;
    }
    let chunks = upload(&p, Rect::new(1, 0, 2, 3), ByteOrder::Bgra, 64 + 16);
    let sizes: Vec<_> = chunks.iter().map(|c| (c.x, c.y, c.w, c.h)).collect();
    assert_eq!(sizes, vec![(1, 0, 2, 2), (1, 2, 2, 1)]);
    assert_eq!(chunks[0].bytes[..8], [6, 5, 4, 7, 10, 9, 8, 11]);
    assert_eq!(chunks[1].bytes, vec![38, 37, 36, 39, 42, 41, 40, 43]);
    let tiny = upload(&p, Rect::new(0, 0, 4, 3), ByteOrder::Argb, 0);
    assert_eq!(tiny.len(), 3, "a row goes at once even where it does not fit");
    assert_eq!(tiny[0].bytes[..4], [3, 0, 1, 2]);
    assert_eq!(upload(&p, Rect::new(-5, -5, 7, 6), ByteOrder::Bgra, 999)[0].bytes.len(), 8);
    assert!(upload(&p, Rect::new(9, 9, 5, 5), ByteOrder::Bgra, 999).is_empty());
    assert_eq!(
        pixel_format(24, 32, true),
        Some(PixelFormat {
            depth: 24,
            order: ByteOrder::Bgra
        })
    );
    assert_eq!(pixel_format(32, 32, false).map(|f| f.order), Some(ByteOrder::Argb));
    assert!(pixel_format(16, 16, true).is_none() && pixel_format(16, 32, true).is_none());
}

fn press(window: u32, detail: u8, x: i16, y: i16, time: u32, press: bool) -> ButtonEvent {
    ButtonEvent {
        window,
        detail,
        state: SHIFT,
        time,
        x,
        y,
        root_x: x + 500,
        root_y: y + 500,
        press,
    }
}

const FREE: HitTest = HitTest {
    interactive: false,
    drag: false,
};
const DRAG: HitTest = HitTest {
    interactive: false,
    drag: true,
};

#[test]
fn buttons_reach_the_content() {
    let mut s = session(true);
    let shift = Mods {
        shift: true,
        ctrl: false,
        alt: false,
        meta: false,
    };
    let event = |kind, button, click_count| PointerEvent {
        kind,
        x: 3,
        y: 4,
        button,
        click_count,
        mods: shift,
    };
    let mut send = |e| s.on_button(e, FREE, metrics());
    assert_eq!(
        send(press(20, 1, 3, 4, 100, true)),
        ButtonOutcome::DeliverAfterAbort(event(PointerKind::Down, MouseButton::Left, 1))
    );
    assert_eq!(
        send(press(20, 1, 3, 4, 150, false)),
        ButtonOutcome::Deliver(event(PointerKind::Up, MouseButton::Left, 1))
    );
    assert_eq!(
        send(press(20, 1, 3, 4, 200, true)),
        ButtonOutcome::DeliverAfterAbort(event(PointerKind::Down, MouseButton::Left, 2))
    );
    assert_eq!(
        send(press(20, 3, 3, 4, 220, true)),
        ButtonOutcome::DeliverAfterAbort(event(PointerKind::Down, MouseButton::Right, 1))
    );
    assert_eq!(
        send(press(20, 2, 3, 4, 230, false)),
        ButtonOutcome::Deliver(event(PointerKind::Up, MouseButton::Middle, 1))
    );
    assert_eq!(
        send(press(20, 4, 3, 4, 240, true)),
        ButtonOutcome::Deliver(event(PointerKind::Wheel(120), MouseButton::Left, 1))
    );
    assert_eq!(
        send(press(20, 5, 3, 4, 240, true)),
        ButtonOutcome::Deliver(event(PointerKind::Wheel(-120), MouseButton::Left, 1))
    );
    assert_eq!(send(press(20, 5, 3, 4, 240, false)), ButtonOutcome::Ignored);
    assert_eq!(send(press(20, 8, 3, 4, 240, true)), ButtonOutcome::Ignored);
    assert_eq!(send(press(10, 1, 3, 4, 300, true)), ButtonOutcome::Raise(20));
    assert_eq!(send(press(10, 1, 3, 4, 300, false)), ButtonOutcome::Ignored);
    assert_eq!(send(press(99, 1, 3, 4, 300, true)), ButtonOutcome::Ignored);
}

#[test]
fn a_frameless_window_is_dragged_by_its_content() {
    let mut s = session(false);
    s.windows.list[0].frameless = true;
    let m = metrics();
    assert_eq!(
        s.on_button(press(10, 1, 50, 30, 100, true), DRAG, m),
        ButtonOutcome::FrameTook { toggle: false }
    );
    let moved = |x, y| XEvent::Motion {
        window: 10,
        x: 0,
        y: 0,
        root_x: x,
        root_y: y,
        state: 0,
    };
    assert_eq!(s.handle_event(moved(553, 530), m), Reaction::Nothing, "not far enough");
    assert_eq!(
        s.handle_event(moved(555, 530), m),
        Reaction::HandOver {
            window: 10,
            x: 550,
            y: 530,
            direction: 8
        }
    );
    assert_eq!(
        s.on_button(press(10, 1, 50, 30, 150, false), DRAG, m),
        ButtonOutcome::Swallowed
    );
    assert_eq!(
        s.on_button(press(10, 1, 50, 30, 200, true), DRAG, m),
        ButtonOutcome::FrameTook { toggle: true },
        "a double click switches between maximised and restored"
    );
    s.on_button(press(10, 1, 50, 30, 250, false), DRAG, m);
    assert_eq!(
        s.on_button(press(10, 1, 99, 30, 900, true), FREE, m),
        ButtonOutcome::FrameTook { toggle: false },
        "the right edge resizes"
    );
    let edge = s.windows.list[0].pointer.pending_drag.expect("a pending drag");
    assert_eq!((edge.direction, edge.x, edge.y), (3, 599, 530));
    s.on_button(press(10, 1, 99, 30, 950, false), FREE, m);
    assert!(s.windows.list[0].pointer.pending_drag.is_none());
    let control = HitTest {
        interactive: true,
        drag: true,
    };
    assert!(matches!(
        s.on_button(press(10, 1, 99, 30, 1900, true), control, m),
        ButtonOutcome::DeliverAfterAbort(_)
    ));
}

#[test]
fn events_of_the_server_are_sorted() {
    let mut s = session(false);
    let m = metrics();
    let message = |kind, format, d0| Message {
        window: 10,
        kind,
        format,
        d0,
        d1: 0,
        d2: 0,
        d3: 0,
        d4: 0,
    };
    let close = message(1, 32, 2);
    assert_eq!(s.handle_event(XEvent::Message(close), m), Reaction::RequestClose(10));
    assert_eq!(
        s.handle_event(XEvent::Message(message(1, 8, 2)), m),
        Reaction::Nothing
    );
    let enter = message(7, 32, 5);
    assert_eq!(s.handle_event(XEvent::Message(enter), m), Reaction::Dnd(enter));
    let data = |selection| XEvent::SelectionNotify {
        requestor: 10,
        selection,
        property: 4,
    };
    assert_eq!(
        s.handle_event(data(13), m),
        Reaction::DropData {
            requestor: 10,
            property: 4
        }
    );
    assert_eq!(s.handle_event(data(1), m), Reaction::Nothing);
    let property = |atom| XEvent::Property { window: 10, atom };
    assert_eq!(s.handle_event(property(3), m), Reaction::RefreshState(10));
    assert_eq!(s.handle_event(property(4), m), Reaction::Nothing);
    let leave = |normal, state| XEvent::Leave {
        window: 10,
        normal,
        state,
    };
    let left = PointerEvent::single(PointerKind::Move, -1, -1, MouseButton::Left);
    assert_eq!(
        s.handle_event(leave(true, SHIFT), m),
        Reaction::Pointer {
            window: 10,
            event: left
        }
    );
    assert_eq!(s.handle_event(leave(true, 0x100), m), Reaction::Nothing);
    assert_eq!(s.handle_event(leave(false, 0), m), Reaction::Nothing);
    let key = |window, press| XEvent::Key {
        window,
        keycode: 9,
        state: 0,
        press,
    };
    assert_eq!(
        s.handle_event(key(ROOT, true), m),
        Reaction::Hotkey {
            keycode: 9,
            state: 0
        }
    );
    assert_eq!(s.handle_event(key(ROOT, false), m), Reaction::Nothing);
    assert!(matches!(s.handle_event(key(10, false), m), Reaction::Key { .. }));
    let focus = |grab| XEvent::Focus {
        window: 10,
        gained: true,
        grab,
    };
    assert_eq!(
        s.handle_event(focus(false), m),
        Reaction::Focus {
            window: 10,
            gained: true
        }
    );
    assert_eq!(s.handle_event(focus(true), m), Reaction::Nothing);
    assert_eq!(
        s.handle_event(XEvent::Mapping { keyboard: true }, m),
        Reaction::ReloadKeymap
    );
    assert_eq!(
        s.handle_event(XEvent::Mapping { keyboard: false }, m),
        Reaction::Nothing
    );
    assert_eq!(s.handle_event(XEvent::Other, m), Reaction::Nothing);
}

fn keyboard() -> Keymap {
    // Escape, a, Alt, space, from key code 9 on, two columns each.
    let syms = vec![0xff1b, 0, 0x61, 0x41, 0xffe9, 0, 0x20, 0x20];
    Keymap::new(9, 2, syms)
}

fn event(key: Key, pressed: bool, ctrl: bool, alt: bool) -> KeyEvent {
    KeyEvent {
        key,
        pressed,
        shift: false,
        ctrl,
        alt,
        meta: false,
    }
}

#[test]
fn keys_become_events() {
    let mut s = session(false);
    let k = keyboard();
    assert_eq!(s.on_key(&k, 10, 10, 0, true), vec![event(Key::Char('a'), true, false, false)]);
    assert_eq!(
        s.on_key(&k, 10, 10, SHIFT, true),
        vec![event(Key::Char('A'), true, false, false)]
    );
    assert_eq!(
        s.on_key(&k, 10, 10, CONTROL, true),
        vec![event(Key::Other(0x41), true, true, false)],
        "a shortcut types nothing"
    );
    assert_eq!(
        s.on_key(&k, 10, 12, 0, true),
        vec![
            event(Key::Space, true, false, false),
            event(Key::Char(' '), true, false, false)
        ]
    );
    assert_eq!(s.on_key(&k, 10, 9, 0, true), vec![event(Key::Escape, true, false, false)]);
    assert!(s.on_key(&k, 10, 9, 0, false).is_empty());
    assert!(s.on_key(&k, 99, 10, 0, true).is_empty());
    assert_eq!(s.on_key(&k, 10, 11, 0, true), vec![event(Key::Alt, true, false, false)]);
    assert!(s.on_key(&k, 10, 11, MOD1, true).is_empty(), "Alt repeats");
    assert_eq!(
        s.on_key(&k, 10, 11, MOD1, false),
        vec![event(Key::Alt, false, false, false)]
    );
    assert!(!s.alt_down);
    assert_eq!(
        mods_of(SHIFT | CONTROL | MOD1 | MOD4),
        Mods {
            ctrl: true,
            alt: true,
            shift: true,
            meta: true
        }
    );
}

#[test]
fn losing_the_focus_ends_capture_and_composition() {
    let mut s = session(false);
    s.pointer_done(10, true, true);
    s.alt_down = true;
    assert!(s.windows.list[0].pointer.capturing);
    assert_eq!(s.activated(10, true), Some(false));
    assert_eq!(s.activated(10, false), Some(true));
    assert!(!s.alt_down && !s.windows.list[0].pointer.capturing);
    assert_eq!(s.activated(10, false), Some(false), "told once");
    assert_eq!(s.activated(99, false), None);
    assert!(!s.dispatch_preedit(10, false), "the end of none is no news");
    assert!(s.dispatch_preedit(10, true) && s.composing(10));
    assert!(s.dispatch_preedit(10, false) && !s.composing(10));
    assert!(!s.dispatch_preedit(99, true) && !s.composing(99));
}

#[test]
fn the_window_manager_tells_and_is_asked() {
    let mut s = session(false);
    assert!(!s.refresh_wm_state(10, &[4, 5], true));
    assert_eq!(
        s.report_state(10),
        Some(WindowState {
            maximized: true,
            minimized: false,
            visible: false,
            maximizable: true,
            minimizable: true
        })
    );
    assert!(!s.refresh_wm_state(10, &[4, 6], false));
    assert!(s.windows.list[0].shown.minimized && !s.windows.list[0].shown.maximized);
    assert!(!s.refresh_wm_state(10, &[6], true), "it was minimised before");
    assert!(!s.refresh_wm_state(10, &[], true));
    assert!(s.refresh_wm_state(10, &[6], true), "minimising hides it");
    assert!(s.windows.list[0].shown.hidden);
    assert!(s.show(10) && !s.show(10), "showing is news once");
    assert!(s.report_state(99).is_none());
    assert_eq!(s.apply_window_op(10, WindowOp::Minimize), WmCall::Iconify);
    assert_eq!(s.apply_window_op(10, WindowOp::ToggleMaximize), WmCall::SetMaximized(2));
    assert_eq!(s.apply_window_op(10, WindowOp::Maximize), WmCall::SetMaximized(1));
    assert_eq!(s.apply_window_op(10, WindowOp::Restore), WmCall::Show);
    s.handle_event(XEvent::Mapped { window: 10 }, metrics());
    assert_eq!(s.apply_window_op(10, WindowOp::Restore), WmCall::SetMaximized(0));
    assert_eq!(s.apply_window_op(10, WindowOp::Hide), WmCall::Unmap);
    assert_eq!(s.apply_window_op(10, WindowOp::Show), WmCall::Show);
    assert_eq!(s.apply_window_op(99, WindowOp::Show), WmCall::Nothing);
}

fn tags(steps: &[FollowUp]) -> Vec<String> {
    steps
        .iter()
        .map(|f| match f {
            FollowUp::Spot { x, y } => format!("spot {x} {y}"),
            FollowUp::Title(t) => format!("title {t}"),
            FollowUp::Hotkey { id, .. } => format!("hotkey {id}"),
            FollowUp::Cursor(i) => format!("cursor {i}"),
            FollowUp::Op(op) => format!("op {op:?}"),
            FollowUp::Dialog => "dialog".to_string(),
            FollowUp::Create { index, owner } => format!("create {index} {owner:?}"),
            FollowUp::Focus(k) => format!("focus {k}"),
            FollowUp::Close => "close".to_string(),
            FollowUp::Broadcast => "broadcast".to_string(),
        })
        .collect()
}

fn nothing() -> Intents {
    Intents {
        op: None,
        dialog: false,
        close: false,
        title: None,
        hotkey_ops: Vec::new(),
        openings: Vec::new(),
        cursor: CursorShape::Arrow,
        caret: None,
    }
}

#[test]
fn what_the_content_asks_for_is_done_in_order() {
    let mut s = session(false);
    assert_eq!(tags(&s.after_event(10, nothing())), ["broadcast"]);
    let all = || Intents {
        op: Some(WindowOp::Minimize),
        dialog: true,
        close: true,
        title: Some("t".to_string()),
        hotkey_ops: vec![(3, HotkeyOp::SetEnabled(false))],
        openings: vec![
            Opening::Create {
                index: 0,
                owned: false,
                modal: false,
            },
            Opening::Focus("k".to_string()),
            Opening::Create {
                index: 1,
                owned: false,
                modal: true,
            },
        ],
        cursor: CursorShape::Text,
        caret: Some((5, 10, 20)),
    };
    assert_eq!(
        tags(&s.after_event(10, all())),
        [
            "spot 5 30",
            "title t",
            "hotkey 3",
            "cursor 2",
            "op Minimize",
            "dialog",
            "create 0 None",
            "focus k",
            "create 1 Some(10)",
            "close",
            "broadcast",
        ]
    );
    assert!(
        !tags(&s.after_event(10, all())).contains(&"cursor 2".to_string()),
        "the cursor is remembered"
    );
    assert!(s.after_event(99, all()).is_empty());
    assert_eq!(cursor_index(CursorShape::SizeNS), 4);
    s.windows.list.iter_mut().for_each(|w| w.paint.needs_paint = false);
    s.mark_all(Some(20));
    let dirty: Vec<bool> = s.windows.list.iter().map(|w| w.paint.needs_paint).collect();
    assert_eq!(dirty, [true, false, true]);
    s.content_done(20, true);
    assert!(s.windows.list[1].paint.needs_paint);
}

#[test]
fn timers_fire_in_step_and_never_in_a_burst() {
    let mut windows = Windows::new();
    register(&mut windows, 10, wanted(None, false), None, &[100 * MS, 1], 0);
    assert_eq!(windows.list[0].intervals[1].period, 10 * MS, "ten milliseconds at least");
    let (fired, next) = tick_timers(&mut windows.list, 10 * MS);
    assert_eq!(
        fired,
        vec![Fired {
            window: 10,
            index: 1
        }]
    );
    assert_eq!(next, Some(20 * MS));
    let (fired, _) = tick_timers(&mut windows.list, 5000 * MS);
    assert_eq!(fired.len(), 2, "each fires once after a long pause");
    assert_eq!(windows.list[0].intervals[0].due, 5100 * MS);
    assert_eq!(windows.list[0].intervals[1].due, 5010 * MS);
    let (fired, next) = tick_timers(&mut windows.list, 5000 * MS);
    assert!(fired.is_empty());
    assert_eq!(next, Some(5010 * MS));
    assert_eq!(tick_timers(&mut Vec::new(), 0).1, None);
}

#[test]
fn frames_come_when_the_content_asks() {
    let step = |frame, at| Some(AnimationStep { frame, at });
    assert_eq!(animation_step(&[], 0, 0), None);
    assert_eq!(animation_step(&[0], 100 * MS, 16 * MS), step(true, 116 * MS));
    assert_eq!(animation_step(&[0], 100 * MS, 6 * MS), step(false, 110 * MS));
    assert_eq!(animation_step(&[500, 40], 0, 0), step(false, 40 * MS));
    assert_eq!(animation_step(&[90_000], 0, 0), step(false, 5000 * MS));
    assert_eq!(time_left(Some(9 * MS), step(false, 5 * MS), 2 * MS), Some(3 * MS));
    assert_eq!(time_left(Some(MS), None, 2 * MS), Some(0));
    assert_eq!(time_left(None, None, 2 * MS), None);
    assert_eq!(poll_timeout_ms(None), -1);
    assert_eq!(poll_timeout_ms(Some(0)), 0);
    assert_eq!(poll_timeout_ms(Some(MS)), 1);
    assert_eq!(poll_timeout_ms(Some(MS + 1000)), 2, "rounded up");
    assert_eq!(poll_timeout_ms(Some(u64::MAX)), i32::MAX);
}

#[test]
fn a_buffer_may_hold_more_than_its_pixels() {
    let data = [1, 2, 3, 4, 5, 6, 7, 8, 9, 9, 9];
    let p = tiny_skia::PixmapRef::from_bytes(&data, 2, 1).expect("long enough").to_owned();
    assert_eq!(p.data().len(), 11);
    let sent = upload(&p, Rect::new(0, 0, 2, 1), ByteOrder::Bgra, 1000);
    assert_eq!(sent.len(), 1);
    assert_eq!(sent[0].bytes, vec![3, 2, 1, 4, 7, 6, 5, 8]);
}

#[test]
fn only_moving_windows_are_drawn_for_the_animation() {
    let mut list = session(false).windows.list;
    for (w, (mapped, minimized)) in list.iter_mut().zip([(true, false), (true, true), (false, false)]) {
        w.shown.mapped = mapped;
        w.shown.minimized = minimized;
        w.paint.needs_paint = false;
    }
    assert!(animates(&list[0], true) && !animates(&list[0], false));
    assert!(!animates(&list[1], true) && !animates(&list[2], true));
    let dirty = |l: &Vec<Win>| l.iter().map(|w| w.paint.needs_paint).collect::<Vec<bool>>();
    assert_eq!(animate(&mut list, &[None, Some(0), Some(0)], 0, 90 * MS), None);
    let step = |frame, at| Some(AnimationStep { frame, at });
    let wishes = [Some(20), Some(0), Some(0)];
    assert_eq!(animate(&mut list, &wishes, 100 * MS, 19 * MS), step(false, 101 * MS));
    assert_eq!(dirty(&list), [false, false, false]);
    assert_eq!(animate(&mut list, &wishes, 100 * MS, 20 * MS), step(true, 120 * MS));
    assert_eq!(dirty(&list), [true, false, false]);
}

#[test]
fn a_grab_is_all_or_nothing() {
    let k = keyboard();
    let hk = Hotkey::new(Key::Char('A')).ctrl();
    let mut attempt = begin_grab(&k, hk).expect("the key is on the keyboard");
    let mut asked = Vec::new();
    let held = loop {
        asked.push(attempt.request());
        match attempt.answer(true) {
            GrabStep::More(next) => attempt = next,
            GrabStep::Held(g) => break g,
            GrabStep::GiveBack(_) => panic!("nothing was refused"),
        }
    };
    assert_eq!(held, (10, CONTROL));
    let all = vec![
        (10, CONTROL),
        (10, CONTROL | LOCK),
        (10, CONTROL | MOD2),
        (10, CONTROL | LOCK | MOD2),
    ];
    assert_eq!(asked, all);
    assert_eq!(ungrab(held), all);
    let first = begin_grab(&k, hk).unwrap();
    let GrabStep::More(second) = first.answer(true) else {
        panic!("there are four");
    };
    let GrabStep::GiveBack(back) = second.answer(false) else {
        panic!("it was refused");
    };
    assert_eq!(back, all[..1]);
    assert!(begin_grab(&k, Hotkey::new(Key::F(1))).is_none(), "not on this keyboard");
    assert!(begin_grab(&k, Hotkey::new(Key::Alt)).is_none());
}

#[test]
fn a_grabbed_key_runs_its_callback() {
    let hk = Hotkey::new(Key::Char('a')).ctrl();
    let bindings = vec![HotkeyBinding {
        hotkey: hk,
        callback: |ctx: &mut HotkeyCtx| ctx.op = Some(WindowOp::Hide),
    }];
    let (mut h, plan) = Hotkeys::install(bindings);
    assert_eq!(h.dispatch(10, CONTROL), None, "nothing is held yet");
    assert!(h.complete(plan[0], Some((10, CONTROL))).is_none());
    assert_eq!(h.dispatch(10, CONTROL | LOCK | MOD2), Some(Some(WindowOp::Hide)));
    assert_eq!(h.dispatch(10, CONTROL | SHIFT), None);
    let step = h.apply(0, HotkeyOp::SetEnabled(false));
    assert_eq!(step.release, Some((10, CONTROL)));
    assert_eq!(h.dispatch(10, CONTROL), None);
    assert!(h.regrab_all()[0].acquire.is_none());
}

#[test]
fn a_program_starts_in_one_of_four_ways() {
    assert_eq!(start_mode(true, true, Some(false)), StartMode::Screenshot);
    assert_eq!(start_mode(false, true, Some(false)), StartMode::RefuseResident);
    assert_eq!(start_mode(false, false, Some(false)), StartMode::SecondInstance);
    assert_eq!(start_mode(false, false, Some(true)), StartMode::Windowed);
    assert_eq!(start_mode(false, false, None), StartMode::Windowed);
    assert_eq!(motion(None, true, 500), (true, Some(500)));
    assert_eq!(motion(Some(false), true, 500), (false, None));
    assert_eq!(motion(Some(true), false, 500), (true, Some(500)));
    assert_eq!(drag_files(&["/a".to_string()], true), DragEffect::Nothing);
    assert!(!single_window_open("main"));
}
