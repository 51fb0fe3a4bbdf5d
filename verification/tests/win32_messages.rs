//! Window messages, touch, frames and pacing on Windows.

use windui::config::{Backend, Renderer};
use windui::event::{Key, KeyEvent, MouseButton, PointerEvent, PointerKind, WindowOp};
use windui::win32::click::ClickLimits;
use windui::win32::frame::{
    centred, client_area, env_forces_gpu, frame_hit, gpu_plan, gpu_tried, ime_place, inner_hit,
    known_dpi, resize_border, resize_for_dpi, show_and_activate, timers, window_op, window_style, GpuPlan,
    Hit, ShowCmd, ShowStep, Sides,
};
use windui::win32::message::{
    after_drop, after_event, after_paint, click_limits, close_answered, host_message, is_touch_event, key_held,
    message_without_state, Ambient, HostMessage, HostStep, Outcome, Reply, WndAction, WndState,
    WM_ACTIVATE, WM_APP_WAKE, WM_CAPTURECHANGED, WM_CHAR, WM_CLOSE, WM_DESTROY, WM_DPICHANGED,
    WM_DROPFILES, WM_ENTERSIZEMOVE, WM_EXITSIZEMOVE, WM_GETMINMAXINFO, WM_HOTKEY,
    WM_IME_COMPOSITION, WM_IME_ENDCOMPOSITION, WM_IME_STARTCOMPOSITION, WM_KEYDOWN,
    WM_LBUTTONDOWN, WM_LBUTTONUP, WM_MOUSELEAVE, WM_MOUSEMOVE, WM_MOUSEWHEEL, WM_NCCALCSIZE,
    WM_NCCREATE, WM_NCHITTEST, WM_NCMOUSEMOVE, WM_PAINT, WM_RBUTTONDOWN, WM_RBUTTONUP,
    WM_SETCURSOR, WM_SIZE, WM_TIMER, WM_TOUCH, WM_TRAYICON,
};
use windui::win32::pacing::{
    animates, animations_enabled, caret_blink, frame_interval_ms, wait_for_frame,
    window_frame_interval_ms, FrameLoop, LoopWait, Pacer, Wait,
};
use windui::win32::touch::{touch_kind, touch_position, Touch, TouchAction, TouchKind};

const NO_TOUCH: u64 = 0;
const TOUCH_MARK: u64 = 0xFF51_5780;

fn ambient(extra: u64, time: u32) -> Ambient {
    Ambient {
        extra,
        time,
        limits: ClickLimits {
            ms: 500,
            dx: 2,
            dy: 2,
        },
        shift: false,
        ctrl: true,
    }
}

fn at(x: i16, y: i16) -> u64 {
    (x as u16 as u64) | ((y as u16 as u64) << 16)
}

fn send(s: &mut WndState, msg: u32, wparam: u64, lparam: u64) -> Outcome {
    s.on_message(msg, wparam, lparam, ambient(NO_TOUCH, 1000))
}

fn plain(action: WndAction, reply: Reply) -> Outcome {
    Outcome {
        action,
        reply,
        track_leave: false,
    }
}

#[test]
fn presses_carry_their_place_and_click_count() {
    let mut s = WndState::new(0, 0);
    let first = send(&mut s, WM_LBUTTONDOWN, 0, at(-3, 7));
    assert_eq!(
        first,
        plain(
            WndAction::Pointer(PointerEvent::single(
                PointerKind::Down,
                -3,
                7,
                MouseButton::Left
            )),
            Reply::Zero
        )
    );
    let up = send(&mut s, WM_LBUTTONUP, 0, at(-3, 7));
    assert_eq!(
        up.action,
        WndAction::Pointer(PointerEvent::single(PointerKind::Up, -3, 7, MouseButton::Left))
    );
    let second = send(&mut s, WM_LBUTTONDOWN, 0, at(-3, 8));
    let WndAction::Pointer(ev) = second.action else {
        panic!("a press is a pointer event");
    };
    assert_eq!(ev.click_count, 2);
    let other = send(&mut s, WM_RBUTTONDOWN, 0, at(-3, 8));
    let WndAction::Pointer(ev) = other.action else {
        panic!("a press is a pointer event");
    };
    assert_eq!((ev.button, ev.click_count), (MouseButton::Right, 1));
    assert_eq!(
        send(&mut s, WM_RBUTTONUP, 0, at(0, 0)).action,
        WndAction::Pointer(PointerEvent::single(PointerKind::Up, 0, 0, MouseButton::Right))
    );
}

#[test]
fn mouse_messages_of_a_touch_are_dropped() {
    assert!(is_touch_event(TOUCH_MARK));
    assert!(is_touch_event(TOUCH_MARK | 0x7F));
    assert!(!is_touch_event(0xFF51_5880));
    assert!(!is_touch_event(0));
    let mut s = WndState::new(0, 0);
    for msg in [WM_MOUSEMOVE, WM_LBUTTONDOWN, WM_LBUTTONUP, WM_RBUTTONDOWN, WM_RBUTTONUP] {
        let out = s.on_message(msg, 0, at(1, 1), ambient(TOUCH_MARK, 1000));
        assert_eq!(out.action, WndAction::Nothing);
    }
    assert_eq!(s.last_click.count, 0, "no click was counted");
}

#[test]
fn leaving_is_asked_for_once_per_visit() {
    let mut s = WndState::new(0, 0);
    assert!(send(&mut s, WM_MOUSEMOVE, 0, at(1, 1)).track_leave);
    assert!(!send(&mut s, WM_MOUSEMOVE, 0, at(2, 1)).track_leave);
    assert_eq!(
        send(&mut s, WM_MOUSELEAVE, 0, 0),
        plain(
            WndAction::Pointer(PointerEvent::single(
                PointerKind::Move,
                -1,
                -1,
                MouseButton::Left
            )),
            Reply::Zero
        )
    );
    assert!(send(&mut s, WM_MOUSEMOVE, 0, at(2, 1)).track_leave);
}

#[test]
fn wheel_and_outer_moves_are_in_screen_coordinates() {
    let mut s = WndState::new(0, 0);
    let back = ((-120i16) as u16 as u64) << 16;
    assert_eq!(
        send(&mut s, WM_MOUSEWHEEL, back, at(-5, 900)),
        plain(
            WndAction::ScreenPointer(PointerEvent::single(
                PointerKind::Wheel(-120),
                -5,
                900,
                MouseButton::Left
            )),
            Reply::Zero
        )
    );
    assert_eq!(
        send(&mut s, WM_NCMOUSEMOVE, 0, at(4, 5)),
        plain(
            WndAction::ScreenPointer(PointerEvent::single(
                PointerKind::Move,
                4,
                5,
                MouseButton::Left
            )),
            Reply::System
        )
    );
}

#[test]
fn keys_and_characters_become_key_events() {
    let mut s = WndState::new(0, 0);
    assert_eq!(
        send(&mut s, WM_KEYDOWN, 0x25, 0),
        plain(
            WndAction::Key(KeyEvent {
                key: Key::Left,
                pressed: true,
                shift: false,
                ctrl: true,
                alt: false,
                meta: false
            }),
            Reply::Zero
        )
    );
    assert_eq!(send(&mut s, WM_CHAR, 8, 0).action, WndAction::Nothing);
    assert_eq!(send(&mut s, WM_CHAR, 0xD83D, 0).action, WndAction::Nothing);
    assert_eq!(s.pending_surrogate, Some(0xD83D));
    let WndAction::Key(ev) = send(&mut s, WM_CHAR, 0xDE00, 0).action else {
        panic!("the pair is a character");
    };
    assert_eq!(ev.key, Key::Char('😀'));
    assert!(!ev.ctrl, "a typed character carries no modifiers");
    assert_eq!(s.pending_surrogate, None);
}

#[test]
fn sizes_follow_the_window() {
    let mut s = WndState::new(0, 0);
    assert_eq!(
        send(&mut s, WM_SIZE, 1, at(10, 10)),
        plain(WndAction::Nothing, Reply::Zero),
        "a minimized window keeps its buffer"
    );
    let resized = |paint_now| {
        plain(
            WndAction::Resize {
                w: 640,
                h: 480,
                paint_now,
            },
            Reply::Zero,
        )
    };
    assert_eq!(send(&mut s, WM_SIZE, 0, at(640, 480)), resized(true));
    assert_eq!(send(&mut s, WM_ENTERSIZEMOVE, 0, 0).reply, Reply::System);
    assert_eq!(send(&mut s, WM_SIZE, 0, at(640, 480)), resized(false));
    send(&mut s, WM_EXITSIZEMOVE, 0, 0);
    assert_eq!(send(&mut s, WM_SIZE, 0, at(640, 480)), resized(true));
}

#[test]
fn the_smallest_size_is_reported_where_there_is_one() {
    let mut free = WndState::new(0, 0);
    assert_eq!(
        send(&mut free, WM_GETMINMAXINFO, 0, 0),
        plain(WndAction::Nothing, Reply::System)
    );
    let mut bound = WndState::new(0, 200);
    assert_eq!(
        send(&mut bound, WM_GETMINMAXINFO, 0, 0),
        plain(WndAction::MinTrack, Reply::Zero)
    );
}

#[test]
fn only_a_frameless_window_has_its_own_frame() {
    let mut s = WndState::new(0, 0);
    assert_eq!(
        send(&mut s, WM_NCCALCSIZE, 1, 0),
        plain(WndAction::Nothing, Reply::System)
    );
    assert_eq!(
        send(&mut s, WM_NCHITTEST, 0, at(1, 2)),
        plain(WndAction::Nothing, Reply::System)
    );
    s.frameless = true;
    assert_eq!(
        send(&mut s, WM_NCCALCSIZE, 1, 0),
        plain(WndAction::NcCalcSize, Reply::Zero)
    );
    assert_eq!(
        send(&mut s, WM_NCCALCSIZE, 0, 0),
        plain(WndAction::Nothing, Reply::System)
    );
    assert_eq!(
        send(&mut s, WM_NCHITTEST, 0, at(-1, 2)),
        plain(WndAction::NcHitTest { sx: -1, sy: 2 }, Reply::Hit)
    );
}

#[test]
fn capture_follows_the_content() {
    let mut s = WndState::new(0, 0);
    assert_eq!(s.sync_capture(false), None);
    assert_eq!(s.sync_capture(true), Some(HostStep::SetCapture));
    assert_eq!(s.sync_capture(true), None);
    assert_eq!(s.sync_capture(false), Some(HostStep::ReleaseCapture));
    s.sync_capture(true);
    assert_eq!(
        send(&mut s, WM_CAPTURECHANGED, 0, 0).action,
        WndAction::CaptureLost
    );
    assert_eq!(
        send(&mut s, WM_CAPTURECHANGED, 0, 0).action,
        WndAction::Nothing,
        "a loss is told once"
    );
    assert!(!s.capturing);
}

#[test]
fn the_other_messages_are_told_apart() {
    let mut s = WndState::new(0, 0);
    let cases = [
        (WM_NCCREATE, 0, 0, WndAction::Bind, Reply::System),
        (WM_PAINT, 0, 0, WndAction::Paint, Reply::Zero),
        (WM_SETCURSOR, 0, 1, WndAction::SetCursor, Reply::One),
        (WM_SETCURSOR, 0, 2, WndAction::Nothing, Reply::System),
        (WM_ACTIVATE, 1, 0, WndAction::Activated(true), Reply::System),
        (WM_ACTIVATE, 0, 0, WndAction::Activated(false), Reply::System),
        (WM_DPICHANGED, 144, 0, WndAction::DpiChanged { dpi: 144 }, Reply::Zero),
        (WM_TOUCH, 0, 0, WndAction::Nothing, Reply::Zero),
        (WM_TOUCH, 2, 0, WndAction::ReadTouch { points: 2 }, Reply::Zero),
        (WM_TOUCH, 20, 0, WndAction::ReadTouch { points: 8 }, Reply::Zero),
        (WM_DROPFILES, 0, 0, WndAction::Drop, Reply::Zero),
        (WM_TIMER, 3, 0, WndAction::Timer { index: 2 }, Reply::Zero),
        (WM_TIMER, 0, 0, WndAction::Timer { index: 0 }, Reply::Zero),
        (WM_IME_STARTCOMPOSITION, 0, 0, WndAction::ImeStart, Reply::System),
        (WM_IME_COMPOSITION, 0, 0, WndAction::ImeMove, Reply::System),
        (WM_IME_ENDCOMPOSITION, 0, 0, WndAction::ImeEnd, Reply::System),
        (WM_CLOSE, 0, 0, WndAction::CloseRequest, Reply::Zero),
        (WM_DESTROY, 0, 0, WndAction::Destroyed, Reply::Zero),
        (0x7FFF, 0, 0, WndAction::Nothing, Reply::System),
    ];
    for (msg, wparam, lparam, action, reply) in cases {
        assert_eq!(
            send(&mut s, msg, wparam, lparam),
            plain(action, reply),
            "message {msg:#x}"
        );
    }
}

#[test]
fn a_window_without_state_still_answers() {
    assert_eq!(
        message_without_state(WM_NCCREATE, 0),
        plain(WndAction::Bind, Reply::System)
    );
    assert_eq!(
        message_without_state(WM_DESTROY, 0),
        plain(WndAction::Destroyed, Reply::Zero)
    );
    assert_eq!(
        message_without_state(WM_PAINT, 0),
        plain(WndAction::Broadcast, Reply::Zero)
    );
    for (msg, wparam, action) in [
        (WM_DPICHANGED, 144, WndAction::DpiChanged { dpi: 144 }),
        (WM_TOUCH, 20, WndAction::ReadTouch { points: 8 }),
        (WM_TOUCH, 0, WndAction::Nothing),
        (WM_DROPFILES, 7, WndAction::Drop),
        (WM_TIMER, 1, WndAction::Nothing),
        (WM_CLOSE, 0, WndAction::Nothing),
    ] {
        assert_eq!(message_without_state(msg, wparam), plain(action, Reply::Zero));
    }
    assert_eq!(
        message_without_state(WM_NCMOUSEMOVE, 0),
        plain(WndAction::Nothing, Reply::System)
    );
}

#[test]
fn the_end_of_a_window_comes_last() {
    assert_eq!(
        after_event(true, Some(HostStep::SetCapture), true),
        vec![
            HostStep::Invalidate,
            HostStep::SetCapture,
            HostStep::WindowOps,
            HostStep::Dialog,
            HostStep::Destroy
        ]
    );
    assert_eq!(
        after_event(false, None, false),
        vec![HostStep::WindowOps, HostStep::Dialog]
    );
    assert_eq!(
        after_paint(),
        vec![HostStep::WindowOps, HostStep::Dialog, HostStep::CloseIfWanted]
    );
    assert_eq!(after_drop(false, true), vec![]);
    assert_eq!(
        after_drop(true, true),
        vec![HostStep::Invalidate, HostStep::Dialog, HostStep::CloseIfWanted]
    );
    assert_eq!(
        after_drop(true, false),
        vec![HostStep::Dialog, HostStep::CloseIfWanted]
    );
    assert_eq!(close_answered(true), vec![HostStep::Destroy]);
    assert_eq!(
        close_answered(false),
        vec![HostStep::Invalidate, HostStep::WindowOps, HostStep::Dialog]
    );
}

#[test]
fn the_hidden_window_sorts_its_messages() {
    assert_eq!(host_message(WM_NCCREATE, 0, 0), HostMessage::Bind);
    assert_eq!(host_message(WM_APP_WAKE, 0, 0), HostMessage::RepaintAll);
    assert_eq!(host_message(WM_HOTKEY, 4, 0), HostMessage::Hotkey { id: 4 });
    assert_eq!(
        host_message(WM_TRAYICON, 0, 0x1_0000_0202),
        HostMessage::TrayIcon { event: 0x202 }
    );
    assert_eq!(host_message(WM_DESTROY, 0, 0), HostMessage::Destroyed);
    assert_eq!(host_message(WM_PAINT, 0, 0), HostMessage::System);
}

#[test]
fn settings_of_the_mouse_and_keyboard() {
    assert!(key_held(-32768));
    assert!(!key_held(1));
    assert_eq!(
        click_limits(500, 5, 4),
        ClickLimits {
            ms: 500,
            dx: 2,
            dy: 2
        }
    );
}

#[test]
fn a_tap_clicks_where_the_finger_went_down() {
    let mut t = Touch::new();
    assert_eq!(t.on_touch(TouchKind::Move, 1, 1, 5), TouchAction::Nothing);
    assert_eq!(t.on_touch(TouchKind::Down, 100, 100, 10), TouchAction::Stop);
    assert_eq!(
        t.on_touch(TouchKind::Move, 111, 95, 20),
        TouchAction::Track {
            dy: -5,
            dt: 10,
            pan: false
        },
        "eleven pixels are not a scroll"
    );
    assert_eq!(
        t.on_touch(TouchKind::Up, 111, 95, 30),
        TouchAction::Tap {
            down: PointerEvent::single(PointerKind::Down, 100, 100, MouseButton::Left),
            up: PointerEvent::single(PointerKind::Up, 111, 95, MouseButton::Left),
        }
    );
    assert_eq!(t.on_touch(TouchKind::Up, 111, 95, 30), TouchAction::Nothing);
}

#[test]
fn a_scroll_flings_and_never_clicks() {
    let mut t = Touch::new();
    t.on_touch(TouchKind::Down, 100, 100, u32::MAX - 4);
    assert_eq!(
        t.on_touch(TouchKind::Move, 100, 112, 5),
        TouchAction::Track {
            dy: 12,
            dt: 10,
            pan: true
        },
        "the clock wraps"
    );
    assert_eq!(
        t.on_touch(TouchKind::Move, 100, 100, 4),
        TouchAction::Track {
            dy: -12,
            dt: -1,
            pan: true
        },
        "back where it began it still scrolls"
    );
    assert_eq!(t.on_touch(TouchKind::Up, 100, 100, 9), TouchAction::Fling);
}

#[test]
fn touch_points_are_read() {
    assert_eq!(touch_kind(true, true, true), Some(TouchKind::Down));
    assert_eq!(touch_kind(false, true, true), Some(TouchKind::Up));
    assert_eq!(touch_kind(false, false, true), Some(TouchKind::Move));
    assert_eq!(touch_kind(false, false, false), None);
    assert_eq!(touch_position(12345), 123);
    assert_eq!(touch_position(-199), -1);
    assert_eq!(touch_position(i32::MIN), -21474836);
}

#[test]
fn a_frameless_window_is_resized_by_its_edges() {
    let hit = |x, y| frame_hit(false, x, y, 200, 100, 8);
    assert_eq!(hit(0, 0), Some(Hit::TopLeft));
    assert_eq!(hit(199, 0), Some(Hit::TopRight));
    assert_eq!(hit(0, 99), Some(Hit::BottomLeft));
    assert_eq!(hit(199, 99), Some(Hit::BottomRight));
    assert_eq!(hit(7, 50), Some(Hit::Left));
    assert_eq!(hit(192, 50), Some(Hit::Right));
    assert_eq!(hit(100, 7), Some(Hit::Top));
    assert_eq!(hit(100, 92), Some(Hit::Bottom));
    assert_eq!(hit(8, 8), None, "the border ends here");
    assert_eq!(hit(191, 91), None);
    assert_eq!(
        frame_hit(true, 0, 0, 200, 100, 8),
        Some(Hit::Client),
        "a control comes first"
    );
    assert_eq!(inner_hit(true), Hit::Caption);
    assert_eq!(inner_hit(false), Hit::Client);
    assert_eq!(Hit::TopLeft.code(), 13);
    assert_eq!(Hit::BottomRight.code(), 17);
}

#[test]
fn borders_and_styles() {
    assert_eq!(resize_border(96), 8);
    assert_eq!(resize_border(144), 12);
    assert_eq!(resize_border(0), 8);
    assert_eq!(window_style(true), 0x00CF_0000);
    assert_eq!(window_style(false), 0x00CA_0000);
    let r = Sides {
        left: -8,
        top: -8,
        right: 1928,
        bottom: 1088,
    };
    assert_eq!(client_area(false, r, 8, 8), r);
    assert_eq!(
        client_area(true, r, 8, 8),
        Sides {
            left: 0,
            top: 0,
            right: 1920,
            bottom: 1080
        }
    );
}

#[test]
fn placement_and_resolution() {
    assert_eq!(centred(1920, 800), 560);
    assert_eq!(centred(800, 1001), -100);
    assert_eq!(known_dpi(0), 96);
    assert_eq!(known_dpi(120), 120);
    assert!(!resize_for_dpi(0, 96));
    assert!(resize_for_dpi(96, 144));
    assert_eq!(
        timers(&vec![0, 250, 0x1_0000_0000]),
        vec![(1, 1), (2, 250), (3, 1)]
    );
}

#[test]
fn the_renderer_depends_on_the_session() {
    assert_eq!(gpu_plan(Renderer::Gpu, false, true), GpuPlan::Refuse);
    assert_eq!(gpu_plan(Renderer::Gpu, false, false), GpuPlan::Try);
    assert_eq!(gpu_plan(Renderer::Auto, true, true), GpuPlan::Software);
    assert_eq!(gpu_plan(Renderer::Software, true, false), GpuPlan::Try);
    assert_eq!(gpu_plan(Renderer::Software, false, false), GpuPlan::Software);
    assert_eq!(gpu_tried(Renderer::Auto, true), Backend::Gpu);
    assert_eq!(
        gpu_tried(Renderer::Auto, false),
        Backend::Software { fell_back: true }
    );
    assert_eq!(gpu_tried(Renderer::Gpu, false), Backend::Unavailable);
    assert!(env_forces_gpu(Some("1")));
    assert!(env_forces_gpu(Some("00")));
    assert!(!env_forces_gpu(Some("0")));
    assert!(!env_forces_gpu(Some("")));
    assert!(!env_forces_gpu(None));
}

#[test]
fn window_operations_become_show_commands() {
    let just = |cmd| ShowStep {
        cmd: Some(cmd),
        foreground: false,
        notify_shown: false,
    };
    assert_eq!(
        window_op(Some(WindowOp::ToggleMaximize), true, true, false),
        just(ShowCmd::Restore)
    );
    assert_eq!(
        window_op(Some(WindowOp::ToggleMaximize), false, true, false),
        just(ShowCmd::Maximize)
    );
    assert_eq!(
        window_op(Some(WindowOp::Minimize), false, true, false),
        just(ShowCmd::Minimize)
    );
    assert_eq!(
        window_op(Some(WindowOp::Maximize), true, true, false),
        just(ShowCmd::Maximize)
    );
    assert_eq!(
        window_op(Some(WindowOp::Restore), true, true, false),
        just(ShowCmd::Restore)
    );
    assert_eq!(
        window_op(Some(WindowOp::Hide), false, true, false),
        just(ShowCmd::Hide)
    );
    assert_eq!(window_op(None, false, true, false).cmd, None);
    let shown = ShowStep {
        cmd: Some(ShowCmd::Show),
        foreground: true,
        notify_shown: true,
    };
    assert_eq!(window_op(Some(WindowOp::Show), false, false, false), shown);
    assert_eq!(
        show_and_activate(true, true),
        ShowStep {
            cmd: Some(ShowCmd::Restore),
            foreground: true,
            notify_shown: false
        }
    );
}

#[test]
fn frames_follow_the_screen() {
    assert_eq!(window_frame_interval_ms(60), 16);
    assert_eq!(window_frame_interval_ms(50), 20);
    assert_eq!(window_frame_interval_ms(144), 16, "sixty frames at the most");
    assert_eq!(window_frame_interval_ms(0), 16);
    assert_eq!(window_frame_interval_ms(1), 16);
    assert_eq!(frame_interval_ms(&vec![]), 16);
    assert_eq!(frame_interval_ms(&vec![30, 50, 40]), 20);
    let mut p = Pacer::new(&vec![60]);
    p.refresh(&vec![40]);
    assert_eq!(p.frame_ms, 16, "the number of windows is the same");
    p.refresh(&vec![40, 50]);
    assert_eq!(p.frame_ms, 20);
}

#[test]
fn the_loop_waits_for_the_most_pressing_window() {
    assert_eq!(
        wait_for_frame(16, &vec![500, 100], 30),
        Wait {
            due: 100,
            hires: false,
            ms: 70
        }
    );
    assert_eq!(
        wait_for_frame(16, &vec![0], 20),
        Wait {
            due: 16,
            hires: true,
            ms: 0
        }
    );
    assert_eq!(wait_for_frame(16, &vec![60_000], 0).due, 5000);
    assert_eq!(wait_for_frame(16, &vec![], 6).ms, 10);
    assert!(animates(true, false, true));
    assert!(!animates(true, true, true));
    assert!(!animates(false, false, true));
    assert!(!animates(true, false, false));
}

#[test]
fn the_loop_blocks_until_something_moves() {
    let mut l = FrameLoop::new(&vec![60], 1000);
    assert_eq!(l.turn(&vec![60], &vec![], 1000), LoopWait::Block);
    l.restart(1040);
    assert_eq!(
        l.turn(&vec![60], &vec![0], 1050),
        LoopWait::Frame { ms: 6, due: 16 }
    );
    assert!(l.hires);
    assert!(!l.frame_due(16, 1055) && l.frame_due(16, 1056));
    l.restart(1056);
    assert_eq!(
        l.turn(&vec![50, 40], &vec![500, 200], 1056),
        LoopWait::Frame { ms: 200, due: 200 }
    );
    assert!(!l.hires);
    assert_eq!(l.pacer.frame_ms, 20, "the number of windows changed");
    assert_eq!(l.turn(&vec![50, 40], &vec![0], 900), LoopWait::Frame { ms: 20, due: 20 });
    l.turn(&vec![50, 40], &vec![], 2000);
    assert!(!l.hires);
}

#[test]
fn the_input_method_follows_the_caret() {
    assert!(ime_place(None).is_none());
    let p = ime_place(Some((3, 10, 20))).expect("there is a caret");
    assert_eq!((p.height, p.text.x, p.text.y), (20, 3, 10));
    assert_eq!((p.candidates.x, p.candidates.y), (3, 30));
}

#[test]
fn blinking_and_moving_follow_wish_and_system() {
    assert_eq!(caret_blink(None, 530, 500), Some(530));
    assert_eq!(caret_blink(Some(true), 0, 500), Some(500));
    assert_eq!(caret_blink(None, u32::MAX, 500), None);
    assert_eq!(caret_blink(Some(false), 530, 500), None);
    assert!(!animations_enabled(Some(false), true, Some(true)));
    assert!(animations_enabled(None, true, Some(false)));
    assert!(!animations_enabled(None, false, Some(false)));
    assert!(animations_enabled(None, false, None));
}
