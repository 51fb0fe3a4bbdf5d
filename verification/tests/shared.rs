//! What the platforms share: buffers, dialogs, pictures, hot keys, the tray and the registry.

use std::cell::RefCell;

use windui::config::{choose_backend, Backend, NewWindow, PointerHit, Renderer, ScreenshotKey, WindowConfig};
use windui::dialog::{DialogRequest, EventDispatch, PickDialog, PickMany, PickOne};
use windui::event::{
    CallbackWindows, Hotkey, HotkeyCtx, HotkeyOp, Key, KeyEvent, MouseButton, PointerKind, Preedit,
    WindowOp, WindowRequest,
};
use windui::geometry::{Color, Rect};
use windui::hotkey::{Acquire, HotkeyBinding, HotkeySlots, Phase};
use windui::registry::LiveWindows;
use windui::picture_path::{child_screenshot_path, PathPrefix};
use windui::screenshot::{
    children_of, hit_report, offscreen_script, settles, trace_hits,
    HitReport, Offscreen, Shot, HOVER_MS, SETTLE_FRAMES,
};
use windui::signal::{Signals, TextContent};
use windui::surface::{copy_rows, swap_range, swap_rb_inplace, ByteOrder};
use windui::tray::{
    effective_actions, take_tray_ops, tray_step, MenuEntry, Tray, TrayAction, TrayCtx, TrayHandle,
    TrayMenuItem, TrayOp, TrayQueues, TrayStep,
};

type Config = WindowConfig<fn(&mut TrayCtx<()>), fn(&mut HotkeyCtx)>;
type TrayFn = Box<dyn FnMut(&mut TrayCtx<()>)>;
type HotkeyFn = Box<dyn FnMut(&mut HotkeyCtx)>;

#[test]
fn rectangles_meet_and_join() {
    let a = Rect::new(0, 0, 10, 10);
    let b = Rect::new(5, -5, 10, 10);
    assert_eq!(a.intersect(&b), Rect::new(5, 0, 5, 5));
    assert_eq!(a.union(&b), Rect::new(0, -5, 15, 15));
    assert!(a.intersect(&Rect::new(10, 0, 5, 5)).is_empty(), "they only touch");
    assert_eq!(a.union(&Rect::new(50, 50, 0, 9)), a, "an empty one adds nothing");
    assert_eq!((b.right(), b.bottom()), (15, 5));
}

#[test]
fn swapping_twice_changes_nothing() {
    let start: Vec<u8> = (0..18).collect();
    let mut data = start.clone();
    swap_rb_inplace(&mut data);
    assert_eq!(&data[..4], &[2, 1, 0, 3]);
    assert_eq!(&data[16..], &[16, 17], "half a pixel stays");
    swap_rb_inplace(&mut data);
    assert_eq!(data, start);
    swap_range(&mut data, 4, 1);
    assert_eq!(&data[..8], &[0, 1, 2, 3, 6, 5, 4, 7]);
}

#[test]
fn rows_are_copied_in_another_order() {
    let data: Vec<u8> = (0..24).collect();
    assert_eq!(
        copy_rows(&data, 3, 1, 2, 1, 1, ByteOrder::Bgra),
        vec![18, 17, 16, 19, 22, 21, 20, 23]
    );
    assert_eq!(
        copy_rows(&data, 3, 0, 1, 0, 2, ByteOrder::Argb),
        vec![3, 0, 1, 2, 15, 12, 13, 14]
    );
    assert!(copy_rows(&data, 3, 3, 0, 0, 2, ByteOrder::Bgra).is_empty());
}

#[test]
fn an_opaque_colour_fills_as_it_is() {
    let mut off = Offscreen::new(2, 1).expect("a small buffer");
    assert_eq!(off.pixmap.data(), &[0; 8], "a new buffer is transparent");
    let window = Color {
        r: 1,
        g: 2,
        b: 3,
        a: 255,
    };
    for c in 0..=255u8 {
        let own = Color {
            r: c,
            g: 255 - c,
            b: c / 2,
            a: 255,
        };
        off.begin_frame(Some(own), window);
        let px = [c, 255 - c, c / 2, 255];
        assert_eq!(off.pixmap.data(), [px, px].concat());
    }
    off.begin_frame(None, window);
    assert_eq!(off.pixmap.data(), &[1, 2, 3, 255, 1, 2, 3, 255]);
    let half = Color {
        r: 255,
        g: 0,
        b: 100,
        a: 128,
    };
    off.begin_frame(Some(half), window);
    assert_eq!(off.pixmap.data()[..4], [128, 0, 50, 128], "premultiplied");
    off.begin_frame(
        Some(Color {
            r: 9,
            g: 9,
            b: 9,
            a: 0,
        }),
        window,
    );
    assert_eq!(off.pixmap.data(), &[0; 8]);
}

#[test]
fn a_buffer_needs_a_size() {
    assert!(Offscreen::new(0, 5).is_none());
    assert!(Offscreen::new(5, 0).is_none());
    assert!(Offscreen::new(i32::MAX as u32 / 4 + 1, 1).is_none(), "a row is too long");
}

fn described(d: PickDialog) -> String {
    format!("{:?}", d.into_dialog(&EventDispatch::new()))
}

#[test]
fn a_dialog_is_described_step_by_step() {
    let bare = described(PickDialog::new());
    assert_eq!(bare, described(PickDialog::default()));
    assert!(bare.contains("title: None") && bare.contains("filters: []"));
    let d = PickDialog::new()
        .title("Open")
        .filter("Text", &["txt".to_string(), "md".to_string()])
        .filter("All", &[])
        .directory("/tmp")
        .file_name("a.txt");
    let text = described(d);
    assert!(text.contains("title: Some(\"Open\")"), "{text}");
    assert!(text.contains("name: \"Text\", extensions: [\"txt\", \"md\"]"), "{text}");
    assert!(text.contains("name: \"All\", extensions: []"), "{text}");
    assert!(text.find("Text") < text.find("All"), "filters keep their order");
    assert!(text.contains("starting_directory: Some(\"/tmp\")"), "{text}");
    assert!(text.contains("file_name: Some(\"a.txt\")"), "{text}");
    let cleared = described(PickDialog::new().directory("/tmp").directory(""));
    assert!(cleared.contains("starting_directory: None"), "{cleared}");
}

type One<'a> = Box<dyn FnOnce(Option<String>) + 'a>;
type Many<'a> = Box<dyn FnOnce(Option<Vec<String>>) + 'a>;
type Custom<'a> = Box<dyn FnOnce() + 'a>;

#[test]
fn a_request_opens_its_dialog_and_hands_the_answer_on() {
    let log = RefCell::new(Vec::new());
    let say = |s: String| log.borrow_mut().push(s);
    let one = || -> One { Box::new(|p| say(format!("one {p:?}"))) };
    let many = || -> Many { Box::new(|p| say(format!("many {p:?}"))) };
    let custom: Custom = Box::new(|| say("custom".to_string()));
    let d = || PickDialog::new();
    let requests: Vec<DialogRequest<One, Many, Custom>> = vec![
        DialogRequest::PickFile(d(), one()),
        DialogRequest::PickFiles(d(), many()),
        DialogRequest::PickFolder(d(), one()),
        DialogRequest::PickFolders(d(), many()),
        DialogRequest::SaveFile(d(), one()),
        DialogRequest::Custom(custom),
    ];
    for r in requests {
        r.run(
            |kind, _| {
                say(format!("{kind:?}"));
                (kind != PickOne::SaveFile).then(|| "p".to_string())
            },
            |kind: PickMany, _| {
                say(format!("{kind:?}"));
                Some(vec!["p".to_string(), "q".to_string()])
            },
        );
    }
    assert_eq!(
        *log.borrow(),
        [
            "File",
            "one Some(\"p\")",
            "Files",
            "many Some([\"p\", \"q\"])",
            "Folder",
            "one Some(\"p\")",
            "Folders",
            "many Some([\"p\", \"q\"])",
            "SaveFile",
            "one None",
            "custom",
        ]
    );
}

fn left(kind: PointerKind, x: i32, y: i32) -> Shot {
    Shot::Pointer {
        kind,
        x,
        y,
        button: MouseButton::Left,
    }
}

fn pressed(key: Key) -> KeyEvent {
    KeyEvent {
        key,
        pressed: true,
        shift: false,
        ctrl: false,
        alt: false,
        meta: false,
    }
}

#[test]
fn input_is_played_back_in_order() {
    let mut cfg = Config::default();
    assert_eq!(offscreen_script(&cfg), vec![Shot::Frame]);
    cfg.screenshot_rclick = Some((1, 2));
    cfg.screenshot_clicks = vec![(3, 4)];
    cfg.screenshot_drag = Some((5, 6, 7, 8));
    cfg.screenshot_keys = vec![
        ScreenshotKey::Text("hé".to_string()),
        ScreenshotKey::Key(pressed(Key::Enter)),
    ];
    cfg.screenshot_hover = Some((9, 10));
    assert_eq!(
        offscreen_script(&cfg),
        vec![
            Shot::Frame,
            Shot::Pointer {
                kind: PointerKind::Down,
                x: 1,
                y: 2,
                button: MouseButton::Right
            },
            Shot::Frame,
            left(PointerKind::Down, 3, 4),
            Shot::ReportHit { x: 3, y: 4 },
            left(PointerKind::Up, 3, 4),
            Shot::Frame,
            left(PointerKind::Down, 5, 6),
            left(PointerKind::Move, 7, 8),
            left(PointerKind::Up, 7, 8),
            Shot::Frame,
            Shot::Key(pressed(Key::Char('h'))),
            Shot::Key(pressed(Key::Char('é'))),
            Shot::Frame,
            Shot::Key(pressed(Key::Enter)),
            Shot::Frame,
            left(PointerKind::Move, 9, 10),
            Shot::Sleep { ms: HOVER_MS },
            Shot::Frame,
        ]
    );
}

#[test]
fn animations_settle_within_a_few_frames() {
    assert!(settles(0, true));
    assert!(settles(SETTLE_FRAMES - 1, true));
    assert!(!settles(SETTLE_FRAMES, true));
    assert!(!settles(0, false));
}

#[test]
fn clicks_that_do_nothing_are_reported() {
    let bounds = Rect::new(1, 2, 3, 4);
    let hit = |node, consumed| {
        Some(PointerHit {
            node,
            bounds,
            consumed,
        })
    };
    assert_eq!(hit_report(None, true), HitReport::Silent);
    assert_eq!(hit_report(hit(None, false), false), HitReport::Blank);
    assert_eq!(
        hit_report(hit(Some(7), false), false),
        HitReport::Ignored { node: 7, bounds }
    );
    assert_eq!(hit_report(hit(Some(7), true), false), HitReport::Silent);
    assert_eq!(
        hit_report(hit(Some(7), true), true),
        HitReport::Taken { node: 7, bounds }
    );
    assert!(trace_hits(Some("1")) && trace_hits(Some("")));
    assert!(!trace_hits(Some("0")) && !trace_hits(None));
}

#[test]
fn child_pictures_stand_beside_the_main_one() {
    let cases = [
        ("out.png", "out-1.png"),
        ("a/b/", "a/b-1.png"),
        ("a/b/.", "a/b-1.png"),
        ("a//b.png", "a/b-1.png"),
        ("/b.png", "/b-1.png"),
        ("./b.png", "./b-1.png"),
        (".hidden", ".hidden-1.png"),
        ("x.", "x-1."),
        ("", "screenshot-1.png"),
        ("/", "/screenshot-1.png"),
        ("..", "../screenshot-1.png"),
        (".", "./screenshot-1.png"),
        ("图/主.webp", "图/主-1.webp"),
    ];
    for (base, expected) in cases {
        assert_eq!(child_screenshot_path(base, 1, &['/'], None), expected, "{base}");
        let path = std::path::Path::new(base);
        let stem = path.file_stem().map_or("screenshot", |s| s.to_str().unwrap());
        let ext = path.extension().map_or("png", |s| s.to_str().unwrap());
        assert_eq!(
            path.with_file_name(format!("{stem}-1.{ext}")).to_str(),
            Some(expected),
            "{base}"
        );
    }
    assert_eq!(child_screenshot_path("a.png", 1000, &['/'], None), "a-1000.png");
}

#[test]
fn child_pictures_are_files_of_their_own() {
    for base in ["out.png", "a/b.tar.gz", "a/b", ".x", "x."] {
        let mut seen = vec![base.to_string()];
        for idx in [0, 1, 9, 10, 11, 101, 110] {
            let path = child_screenshot_path(base, idx, &['/'], None);
            assert!(!seen.contains(&path), "{path}");
            let (old, new) = (std::path::Path::new(base), std::path::Path::new(&path));
            assert_eq!(new.parent(), old.parent());
            assert_eq!(new.extension(), Some(old.extension().unwrap_or("png".as_ref())));
            seen.push(path.clone());
        }
    }
}

#[test]
fn child_pictures_stand_on_the_same_drive() {
    let drive = Some(PathPrefix { len: 2, drive: true });
    let server = Some(PathPrefix { len: 6, drive: false });
    for (base, prefix, expected) in [
        ("d.x\\s", None, "d.x\\s-1.png"),
        ("a/b\\c.png", None, "a/b\\c-1.png"),
        ("a/c.png", None, "a\\c-1.png"),
        ("C:c.png", drive, "C:c-1.png"),
        ("C:\\c.png", drive, "C:\\c-1.png"),
        ("C:", drive, "C:screenshot-1.png"),
        ("C:\\", drive, "C:\\screenshot-1.png"),
        ("\\\\s\\ab\\c.png", server, "\\\\s\\ab\\c-1.png"),
        ("\\\\s\\ab", server, "\\\\s\\ab\\screenshot-1.png"),
    ] {
        assert_eq!(child_screenshot_path(base, 1, &['\\', '/'], prefix), expected, "{base}");
    }
}

#[test]
fn only_new_windows_get_pictures() {
    let requests = vec![
        NewWindow::Create(1),
        NewWindow::Focus("settings".to_string()),
        NewWindow::Create(2),
    ];
    assert_eq!(children_of(requests), vec![1, 2]);
}

#[test]
fn a_demanded_gpu_is_never_replaced() {
    assert_eq!(choose_backend(Renderer::Gpu, true, true), Backend::Gpu);
    assert_eq!(choose_backend(Renderer::Gpu, true, false), Backend::Unavailable);
    assert_eq!(choose_backend(Renderer::Gpu, false, true), Backend::Unavailable);
    assert_eq!(choose_backend(Renderer::Auto, true, true), Backend::Gpu);
    assert_eq!(
        choose_backend(Renderer::Auto, true, false),
        Backend::Software { fell_back: true }
    );
    assert_eq!(
        choose_backend(Renderer::Auto, false, false),
        Backend::Software { fell_back: false }
    );
    assert_eq!(
        choose_backend(Renderer::Software, true, true),
        Backend::Software { fell_back: false }
    );
}

fn slots(keys: &[Hotkey]) -> (HotkeySlots<HotkeyFn, u32>, Vec<Acquire>) {
    let bindings = keys
        .iter()
        .map(|k| HotkeyBinding {
            hotkey: *k,
            callback: Box::new(|ctx: &mut HotkeyCtx| ctx.op = Some(WindowOp::Show)) as HotkeyFn,
        })
        .collect();
    HotkeySlots::install(bindings)
}

#[test]
fn a_failed_rebind_keeps_the_old_combination() {
    let k = Hotkey::new(Key::Char('k')).ctrl().alt();
    let j = Hotkey::new(Key::Char('j')).shift().meta();
    let (mut s, plan) = slots(&[k]);
    assert_eq!(
        plan,
        vec![Acquire {
            id: 0,
            hotkey: k,
            phase: Phase::Plain
        }]
    );
    assert_eq!(s.complete(plan[0], Some(5)), None);
    let step = s.apply(0, HotkeyOp::Rebind(j));
    assert_eq!(step.release, Some(5));
    let tried = step.acquire.expect("the new combination is tried");
    assert_eq!((tried.hotkey, tried.phase), (j, Phase::Rebind));
    let again = s.complete(tried, None).expect("the old one is tried again");
    assert_eq!((again.hotkey, again.phase), (k, Phase::Restore));
    assert_eq!(s.complete(again, Some(6)), None);
    assert_eq!((s.slots[0].hotkey, s.slots[0].held), (k, Some(6)));
    let tried = s.apply(0, HotkeyOp::Rebind(j)).acquire.expect("a second try");
    s.complete(tried, Some(7));
    assert_eq!((s.slots[0].hotkey, s.slots[0].held), (j, Some(7)));
}

#[test]
fn a_disabled_hotkey_waits() {
    let k = Hotkey::new(Key::F(1));
    let j = Hotkey::new(Key::F(2));
    let (mut s, plan) = slots(&[k]);
    s.complete(plan[0], Some(1));
    let off = s.apply(0, HotkeyOp::SetEnabled(false));
    assert_eq!((off.release, off.acquire), (Some(1), None));
    let moved = s.apply(0, HotkeyOp::Rebind(j));
    assert_eq!((moved.release, moved.acquire), (None, None));
    let on = s.apply(0, HotkeyOp::SetEnabled(true));
    assert_eq!(on.acquire.map(|a| a.hotkey), Some(j));
    s.complete(on.acquire.unwrap(), Some(2));
    assert_eq!(s.apply(0, HotkeyOp::SetEnabled(true)).acquire, None, "it is held already");
    let unknown = s.apply(9, HotkeyOp::SetEnabled(false));
    assert_eq!((unknown.release, unknown.acquire), (None, None));
}

#[test]
fn a_new_keyboard_registers_the_enabled_hotkeys_anew() {
    let (mut s, plan) = slots(&[Hotkey::new(Key::F(1)), Hotkey::new(Key::F(2))]);
    for (i, req) in plan.iter().enumerate() {
        s.complete(*req, Some(i as u32));
    }
    s.apply(1, HotkeyOp::SetEnabled(false));
    let steps = s.regrab_all();
    assert_eq!((steps[0].release, steps[0].acquire), (Some(0), Some(plan[0])));
    assert_eq!((steps[1].release, steps[1].acquire), (None, None));
    assert!(s.slots.iter().all(|x| x.held.is_none()));
    assert_eq!(s.fire(1), Some(WindowOp::Show));
    assert_eq!(s.fire(2), None);
}

fn window(title: &str) -> WindowRequest<()> {
    WindowRequest {
        title: title.to_string(),
        width: 10,
        height: 20,
        single: None,
        content: (),
    }
}

#[test]
fn requested_windows_come_first_in_first_out() {
    let mut queue = CallbackWindows::new();
    assert!(queue.take_callback_window().is_none());
    queue.queue.push(window("a"));
    queue.queue.push(window("b"));
    queue.queue.push(window("c"));
    assert_eq!(queue.take_callback_window().map(|w| w.title), Some("a".to_string()));
    let rest: Vec<String> = queue
        .take_callback_windows()
        .into_iter()
        .map(|w| w.title)
        .collect();
    assert_eq!(rest, ["b", "c"]);
    assert!(queue.queue.is_empty());
}

#[test]
fn clicks_on_the_icon_run_their_callbacks() {
    let mut queue = CallbackWindows::new();
    let mut bare: Tray<TrayFn> = Tray::new();
    assert!(bare.run_click(false, &mut queue).is_empty());
    let once: TrayFn = Box::new(|ctx| {
        ctx.toggle_window();
        ctx.open_window(window("w"));
    });
    let twice: TrayFn = Box::new(|ctx| ctx.show_window());
    let mut tray = Tray::new()
        .tooltip("tip")
        .icon_rgba(1, 1, &[1, 2, 3, 4])
        .on_left_click(once)
        .on_double_click(twice);
    assert_eq!(tray.tooltip, "tip");
    assert_eq!(tray.icon, Some((1, 1, vec![1, 2, 3, 4])));
    assert_eq!(
        tray.run_click(false, &mut queue),
        vec![TrayAction::Toggle, TrayAction::OpenWindow]
    );
    assert_eq!(queue.queue.len(), 1, "one window for one mark");
    assert_eq!(tray.run_click(true, &mut queue), vec![TrayAction::Show]);
}

#[test]
fn the_menu_shows_the_state_of_the_moment() {
    let mut now = Signals::new();
    let on = now.signal(false);
    let quiet: TrayFn = Box::new(|_| {});
    let hide: TrayFn = Box::new(|ctx| ctx.hide_window());
    let mut tray = Tray::new().menu(vec![
        TrayMenuItem::check(TextContent::Plain("a".to_string()), on, quiet).enabled(on),
        TrayMenuItem::item(TextContent::Plain("b".to_string()), hide),
        TrayMenuItem::separator(),
    ]);
    let entry = |t: &Tray<TrayFn>, now: &Signals, i: usize| match &t.build_menu(now)[i] {
        MenuEntry::Item {
            label,
            checked,
            usable,
        } => Some((label.clone(), *checked, *usable)),
        MenuEntry::Separator => None,
    };
    assert_eq!(entry(&tray, &now, 0), Some(("a".to_string(), false, false)));
    now.set(on, true);
    assert_eq!(entry(&tray, &now, 0), Some(("a".to_string(), true, true)));
    assert_eq!(entry(&tray, &now, 1), Some(("b".to_string(), false, true)));
    assert_eq!(entry(&tray, &now, 2), None);
    let mut queue = CallbackWindows::new();
    assert_eq!(tray.run_index(1, &mut queue), vec![TrayAction::Hide]);
    assert!(tray.run_index(2, &mut queue).is_empty());
    assert!(tray.run_index(3, &mut queue).is_empty());
    assert!(tray.item_callback(2).is_none());
}

#[test]
fn nothing_happens_after_a_quit() {
    let all = vec![
        TrayAction::Hide,
        TrayAction::Quit,
        TrayAction::Show,
        TrayAction::Quit,
    ];
    assert_eq!(
        effective_actions(all),
        vec![TrayAction::Hide, TrayAction::Quit]
    );
    assert_eq!(effective_actions(vec![TrayAction::Show]), vec![TrayAction::Show]);
}

#[test]
fn a_toggle_goes_by_what_the_window_is() {
    let op = |a, visible| tray_step(a, visible);
    assert_eq!(op(TrayAction::Toggle, true), TrayStep::Window(WindowOp::Hide));
    assert_eq!(op(TrayAction::Toggle, false), TrayStep::Window(WindowOp::Show));
    assert_eq!(op(TrayAction::Show, true), TrayStep::Window(WindowOp::Show));
    assert_eq!(op(TrayAction::Hide, false), TrayStep::Window(WindowOp::Hide));
    assert_eq!(op(TrayAction::Quit, true), TrayStep::Quit);
    assert_eq!(op(TrayAction::OpenWindow, true), TrayStep::OpenWindow);
    assert_eq!(
        op(TrayAction::CloseWindow("k".to_string()), true),
        TrayStep::CloseWindow("k".to_string())
    );
    let note = TrayAction::Notify {
        title: "a".to_string(),
        body: "b".to_string(),
    };
    assert_eq!(
        op(note, true),
        TrayStep::Notify {
            title: "a".to_string(),
            body: "b".to_string()
        }
    );
}

#[test]
fn changes_of_the_icon_are_drained_once() {
    let mut q = TrayQueues::new();
    let h = TrayHandle::new();
    assert!(!q.take_frame_request());
    h.set_tooltip(&mut q, "t");
    h.notify(&mut q, "a", "b");
    assert!(q.take_frame_request() && !q.take_frame_request());
    assert_eq!(h.pending_ops(&q).len(), 2);
    assert_eq!(
        take_tray_ops(&mut q),
        vec![
            TrayOp::SetTooltip("t".to_string()),
            TrayOp::Notify {
                title: "a".to_string(),
                body: "b".to_string()
            }
        ]
    );
    assert!(take_tray_ops(&mut q).is_empty());
    assert!(TrayHandle::new().pending_ops(&q).is_empty());
}

#[test]
fn handles_of_the_host_share_its_queue() {
    let mut q = TrayQueues::new();
    let (a, b) = (TrayHandle::new(), TrayHandle::default());
    let c = a;
    a.set_tooltip(&mut q, "x");
    b.set_tooltip(&mut q, "x");
    c.set_tooltip(&mut q, "y");
    let all: Vec<TrayOp> = ["x", "x", "y"]
        .iter()
        .map(|s| TrayOp::SetTooltip(s.to_string()))
        .collect();
    for h in [a, b, c] {
        assert_eq!(h.pending_ops(&q), all);
    }
    assert_eq!(take_tray_ops(&mut q), all);
}

#[test]
fn no_host_drains_a_detached_handle() {
    let mut q = TrayQueues::new();
    let (h, other) = (TrayHandle::detached(&mut q), TrayHandle::detached(&mut q));
    h.set_tooltip(&mut q, "t");
    assert!(take_tray_ops(&mut q).is_empty());
    assert_eq!(h.pending_ops(&q), vec![TrayOp::SetTooltip("t".to_string())]);
    assert!(other.pending_ops(&q).is_empty() && q.take_frame_request());
}

#[test]
fn the_registry_keeps_the_order_of_opening() {
    let mut w = LiveWindows::new();
    w.add(3, Some("k".to_string()));
    w.add(1, Some("k".to_string()));
    w.add(2, None);
    assert!(w.contains(1) && !w.contains(9));
    assert_eq!(w.find_single("k"), Some(3), "the oldest has the key");
    assert!(!w.remove(3));
    assert_eq!(w.ids(), vec![1, 2]);
    assert_eq!(w.find_single("k"), Some(1));
}

#[test]
fn a_composition_is_active_while_it_has_text() {
    let mut p = Preedit::new();
    assert!(!p.is_active());
    p.text.push('あ');
    assert!(p.is_active());
}
