//! The macOS side: the view, its windows and the status item.

use windui::config::{Backend, Renderer};
use windui::event::{Key, KeyEvent, MouseButton, PointerEvent, PointerKind, WindowOp};
use windui::geometry::Color;
use windui::macos::clipboard::MacClipboard;
use windui::macos::tray::{icon_pixels, status_click, Pending, StatusClick};
use windui::macos::view::{
    after_event, attach_gpu, close_answered, focus_window, frames_per_second, plan_window,
    pointer_event, retries, schedules_frame, show_and_activate, wants_gpu, window_op, Buffer,
    Closing, FrameError, MacWindows, MinSize, Press, Resigned, ViewState, ViewStep, WindowStep,
};

fn key(k: Key, shift: bool, ctrl: bool) -> KeyEvent {
    KeyEvent {
        key: k,
        pressed: true,
        shift,
        ctrl,
        alt: false,
        meta: false,
    }
}

#[test]
fn keys_go_to_the_content_or_to_the_input_method() {
    let v = ViewState::new(false);
    let press = |code, shift, command, control, first| {
        let plan = v.on_key(code, shift, command, control, first);
        (plan.events, plan.to_ime)
    };
    assert_eq!(
        press(0x24, true, false, false, Some('\r')),
        (vec![key(Key::Enter, true, false)], false)
    );
    assert_eq!(
        press(0x31, false, false, false, Some(' ')),
        (vec![key(Key::Space, false, false)], true),
        "the space bar is a key and a character"
    );
    assert_eq!(
        press(0x31, false, true, false, Some(' ')),
        (vec![key(Key::Space, false, true)], false)
    );
    assert_eq!(press(0x00, false, false, false, Some('a')), (vec![], true));
    assert_eq!(
        press(0x00, true, true, false, Some('a')),
        (vec![key(Key::Other('A' as u32), true, true)], false)
    );
    assert_eq!(
        press(0x00, false, false, true, Some('é')),
        (vec![key(Key::Other('é' as u32), false, true)], false)
    );
    assert_eq!(press(0x00, false, true, false, None), (vec![], false));
}

#[test]
fn a_composition_takes_every_key() {
    let mut v = ViewState::new(false);
    assert!(v.set_marked_text("に"));
    let plan = v.on_key(0x24, false, true, false, Some('\r'));
    assert!(plan.events.is_empty() && plan.to_ime);
    assert_eq!(
        v.ime_insert("日\u{8}本"),
        vec![key(Key::Char('日'), false, false), key(Key::Char('本'), false, false)]
    );
    assert!(!v.composing);
    assert!(v.set_marked_text("x") && !v.set_marked_text(""));
    v.set_marked_text("x");
    v.unmark_text();
    assert!(!v.composing);
}

#[test]
fn losing_the_keyboard_ends_what_was_going_on() {
    let mut v = ViewState::new(false);
    v.pointer_done(true);
    v.set_marked_text("x");
    assert_eq!(
        v.resign_key(),
        Resigned {
            capture_lost: true,
            discard_text: true
        }
    );
    assert_eq!(
        v.resign_key(),
        Resigned {
            capture_lost: false,
            discard_text: false
        }
    );
}

#[test]
fn presses_drag_or_click() {
    let framed = ViewState::new(false);
    let bare = ViewState::new(true);
    assert_eq!(framed.on_press(true, false), Press::Deliver);
    assert_eq!(bare.on_press(true, false), Press::DragWindow);
    assert_eq!(bare.on_press(true, true), Press::Deliver);
    assert_eq!(bare.on_press(false, false), Press::Deliver);
    let clicks = |n| pointer_event(PointerKind::Down, MouseButton::Left, 1, 2, n).click_count;
    assert_eq!([clicks(0), clicks(1), clicks(2), clicks(3), clicks(9)], [1, 1, 2, 3, 3]);
    assert_eq!(
        pointer_event(PointerKind::Up, MouseButton::Right, 1, 2, 5),
        PointerEvent::single(PointerKind::Up, 1, 2, MouseButton::Right)
    );
}

#[test]
fn what_follows_an_event_comes_in_order() {
    assert_eq!(
        after_event(Some(WindowOp::Hide), true, true),
        vec![
            ViewStep::Hotkeys,
            ViewStep::Window(WindowOp::Hide),
            ViewStep::Dialog,
            ViewStep::OpenWindows,
            ViewStep::Cursor,
            ViewStep::Close,
            ViewStep::Broadcast,
        ]
    );
    assert_eq!(
        after_event(None, false, false),
        vec![
            ViewStep::Hotkeys,
            ViewStep::OpenWindows,
            ViewStep::Cursor,
            ViewStep::Broadcast
        ]
    );
    assert!(close_answered(true, Some(WindowOp::Hide), true).is_empty());
    assert_eq!(
        close_answered(false, Some(WindowOp::Hide), true),
        vec![ViewStep::Redraw, ViewStep::OrderOut, ViewStep::Dialog]
    );
    assert_eq!(
        close_answered(false, Some(WindowOp::Minimize), false),
        vec![ViewStep::Redraw]
    );
}

#[test]
fn frames_are_scheduled_for_windows_that_are_seen() {
    assert!(schedules_frame(true, true, true, false));
    assert!(schedules_frame(true, false, false, false));
    assert!(!schedules_frame(true, true, false, false));
    assert!(!schedules_frame(true, true, true, true));
    assert!(!schedules_frame(false, true, true, false));
    assert_eq!(frames_per_second(None), 60);
    assert_eq!(frames_per_second(Some(120)), 120);
    assert_eq!(frames_per_second(Some(30)), 60);
    assert_eq!(frames_per_second(Some(500)), 240);
    assert!(retries(FrameError::Skipped));
    assert!(!retries(FrameError::Occluded) && !retries(FrameError::Lost));
}

#[test]
fn a_frame_starts_from_the_background() {
    let mut b = Buffer::new();
    let bg = Color {
        r: 5,
        g: 6,
        b: 7,
        a: 255,
    };
    b.begin_frame(2, 2, bg);
    let bytes = |b: &Buffer| b.pixmap.as_ref().map(|p| p.data().to_vec());
    assert_eq!(bytes(&b), Some([5, 6, 7, 255].repeat(4)));
    b.ensure_pixmap(2, 2);
    assert_eq!(bytes(&b), Some([5, 6, 7, 255].repeat(4)), "one that fits stays");
    b.ensure_pixmap(0, -1);
    assert_eq!((b.w, b.h, bytes(&b)), (1, 1, Some(vec![0; 4])));
}

#[test]
fn the_gpu_is_used_where_it_is_wanted() {
    assert!(wants_gpu(Renderer::Auto, None) && !wants_gpu(Renderer::Software, None));
    assert!(wants_gpu(Renderer::Software, Some("1")));
    assert!(!wants_gpu(Renderer::Gpu, Some("0")) && !wants_gpu(Renderer::Gpu, Some("")));
    assert_eq!(attach_gpu(Renderer::Auto, true, true, true), Backend::Gpu);
    assert_eq!(
        attach_gpu(Renderer::Auto, true, false, false),
        Backend::Software { fell_back: true }
    );
    assert_eq!(
        attach_gpu(Renderer::Software, false, true, true),
        Backend::Software { fell_back: false }
    );
    assert_eq!(attach_gpu(Renderer::Gpu, true, true, false), Backend::Unavailable);
    assert_eq!(attach_gpu(Renderer::Gpu, false, true, true), Backend::Unavailable);
}

#[test]
fn windows_are_planned_and_operated() {
    let plain = plan_window(false, false, 0, -5);
    assert_eq!((plain.style, plain.min_size, plain.hide_title), (7, None, false));
    let bare = plan_window(true, true, 100, -5);
    assert_eq!(bare.style, 0x800F);
    assert_eq!(bare.min_size, Some(MinSize { w: 100, h: 0 }));
    assert!(bare.hide_title);
    let op = |o, zoomed| window_op(o, zoomed, false, true);
    assert_eq!(op(WindowOp::Minimize, false), vec![WindowStep::Miniaturize]);
    assert_eq!(op(WindowOp::ToggleMaximize, true), vec![WindowStep::Zoom]);
    assert_eq!(op(WindowOp::Maximize, false), vec![WindowStep::Zoom]);
    assert!(op(WindowOp::Maximize, true).is_empty());
    assert_eq!(op(WindowOp::Restore, true), vec![WindowStep::Zoom]);
    assert!(op(WindowOp::Restore, false).is_empty());
    assert_eq!(op(WindowOp::Hide, false), vec![WindowStep::OrderOut]);
    assert_eq!(
        op(WindowOp::Show, false),
        vec![
            WindowStep::Deminiaturize,
            WindowStep::Front,
            WindowStep::NotifyShown,
            WindowStep::NextFrame
        ]
    );
    assert_eq!(
        show_and_activate(true, false),
        vec![WindowStep::Front, WindowStep::NextFrame]
    );
    assert_eq!(
        focus_window(true),
        vec![WindowStep::Deminiaturize, WindowStep::Front]
    );
    assert_eq!(focus_window(false), vec![WindowStep::Front]);
}

#[test]
fn the_last_window_ends_the_application() {
    let mut w = MacWindows::new();
    w.live.add(1, None);
    w.live.add(2, Some("k".to_string()));
    assert_eq!(w.will_close(9), Closing::Release, "not one of ours");
    assert_eq!(w.will_close(1), Closing::Release);
    assert_eq!(w.drain_closed(), vec![1]);
    assert_eq!(w.live.find_single("k"), Some(2));
    assert_eq!(w.will_close(2), Closing::ReleaseAndTerminate);
    assert_eq!(w.will_close(2), Closing::Nothing, "it is ending already");
    assert_eq!(w.drain_closed(), vec![2]);
    assert!(w.drain_closed().is_empty());
}

#[test]
fn the_status_item_opens_its_menu_or_clicks() {
    assert_eq!(status_click(true, false, 1), StatusClick::Menu);
    assert_eq!(status_click(false, true, 2), StatusClick::Menu);
    assert_eq!(status_click(false, false, 1), StatusClick::Click { double: false });
    assert_eq!(status_click(false, false, 3), StatusClick::Click { double: true });
    let mut p = Pending::opened();
    assert_eq!(p.take_choice(), None);
    p.menu_click(4);
    assert_eq!((p.take_choice(), p.take_choice()), (Some(4), None));
    p.menu_click(4);
    p.menu_click(-1);
    assert_eq!(p.take_choice(), None);
}

#[test]
fn the_picture_of_the_item_is_premultiplied() {
    let px = [255, 100, 0, 128, 9, 8, 7, 255, 50, 60, 70, 0];
    assert_eq!(
        icon_pixels(3, 1, &px),
        Some(vec![128, 50, 0, 128, 9, 8, 7, 255, 0, 0, 0, 0])
    );
    assert_eq!(icon_pixels(4, 1, &px), None);
    assert_eq!(icon_pixels(0, 1, &px), None);
    assert_eq!(icon_pixels(1, -1, &px), None);
}

#[test]
fn the_clipboard_is_not_connected() {
    let c = MacClipboard;
    c.set_text("x");
    assert_eq!(c.get_text(), None);
}
