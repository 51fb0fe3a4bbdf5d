//! Drawing, pictures, drags and the tray icon on Windows.

use windui::event::{CallbackWindows, DragEffect, Key};
use windui::geometry::{Color, Rect};
use windui::signal::{Signals, TextContent};
use windui::tray::{MenuEntry, Tray, TrayAction, TrayCtx, TrayMenuItem};
use windui::win32::chars::{char_event, copy_wide, decode_wide, map_vk, wide, wide_nul};
use windui::win32::d2d::{
    image_scale, is_device_lost, rgba, text_alignment, Align, Cache, ClipStack, Fit, Ratio,
    Recovered, Recovery, SharedDevice, TextAlignment, DXGI_ERROR_DEVICE_REMOVED, GRADIENT_LIMIT,
    IMAGE_LIMIT, LAYOUT_LIMIT, SHADOW_LIMIT,
};
use windui::win32::dragdrop::{
    drag_effect, drag_files, dropped_paths, hdrop_bytes, query_continue_drag, query_get_data,
    DragStep, FormatAnswer, FormatRequest, CF_HDROP, TYMED_HGLOBAL,
};
use windui::win32::paint::SkiaBackend;
use windui::win32::tray::{
    base_nid, classify, icon_pixels, menu_lines, notify_nid, readd, run_item, tooltip_nid,
    TrayEvent, TrayState, MF_CHECKED, MF_GRAYED, MF_SEPARATOR, NIF_INFO, NIF_TIP, NIIF_INFO,
};

type Callback = Box<dyn FnMut(&mut TrayCtx<()>)>;

#[test]
fn virtual_keys_have_names_or_numbers() {
    assert_eq!(map_vk(0x0D), Key::Enter);
    assert_eq!(map_vk(0x22), Key::PageDown);
    assert_eq!(map_vk(0x41), Key::Other(0x41));
}

#[test]
fn texts_become_utf16() {
    assert_eq!(wide("a世😀"), vec![0x61, 0x4E16, 0xD83D, 0xDE00]);
    assert_eq!(wide_nul(""), vec![0]);
    let mut buf = vec![9u16; 6];
    copy_wide(&mut buf, "ab");
    assert_eq!(buf, vec![0x61, 0x62, 0, 9, 9, 9], "the rest stays");
    copy_wide(&mut buf, "abcdefgh");
    assert_eq!(buf, vec![0x61, 0x62, 0x63, 0x64, 0x65, 0]);
    let mut none: Vec<u16> = Vec::new();
    copy_wide(&mut none, "ab");
    assert!(none.is_empty());
}

#[test]
fn control_characters_are_not_typed() {
    assert_eq!(char_event(Some('\r')), None);
    assert_eq!(char_event(Some('\u{85}')), None);
    assert_eq!(char_event(None), None);
    assert_eq!(char_event(Some('é')).map(|e| e.key), Some(Key::Char('é')));
}

#[test]
fn a_lost_device_is_remade_once() {
    assert!(is_device_lost(0x8899_000C));
    assert!(is_device_lost(DXGI_ERROR_DEVICE_REMOVED));
    assert!(is_device_lost(0x887A_0007));
    assert!(!is_device_lost(0));
    let mut shared = SharedDevice::new();
    assert_eq!(shared.acquire(), None, "one has to be made");
    let first = shared.made();
    assert_eq!(shared.acquire(), Some(first));
    let mut a = Recovery::new(first);
    let mut b = Recovery::new(first);
    assert!(a.returned(DXGI_ERROR_DEVICE_REMOVED) && a.lost);
    assert!(!b.returned(0) && !b.lost);
    shared.invalidate(a.generation);
    assert_eq!(shared.current, None);
    let second = shared.made();
    assert_eq!(second, first + 1);
    shared.invalidate(b.generation);
    assert_eq!(shared.current, Some(second), "the new device survives");
    assert_eq!(a.try_recreate(Some(second)), Recovered::Paint);
    assert_eq!(a, Recovery::new(second));
    shared.release();
    assert_eq!(shared.current, None);
}

#[test]
fn three_failures_end_in_software() {
    let mut r = Recovery::new(1);
    assert_eq!(r.try_recreate(None), Recovered::Wait);
    assert_eq!(r.try_recreate(None), Recovered::Wait);
    assert_eq!(r.try_recreate(Some(2)), Recovered::Paint);
    assert_eq!(r.try_recreate(None), Recovered::Wait);
    assert_eq!(r.try_recreate(None), Recovered::Wait);
    assert_eq!(r.try_recreate(None), Recovered::Downgrade);
}

#[test]
fn restoring_takes_off_the_clips_of_the_last_save() {
    let mut s = ClipStack::new();
    assert_eq!(s.restore(), 0, "nothing was saved");
    s.save();
    s.clip_rect();
    s.save();
    s.clip_rect();
    s.clip_rect();
    assert_eq!(s.restore(), 2);
    assert_eq!(s.clips, 1);
    assert!(!s.pop_layer());
    s.push_layer();
    s.push_layer();
    assert!(s.pop_layer());
    assert_eq!(s.finish(), (1, 1));
}

#[test]
fn cache_keys_and_limits() {
    let c = Color {
        r: 1,
        g: 2,
        b: 3,
        a: 4,
    };
    assert_eq!(rgba(c), 0x0102_0304);
    assert_eq!([LAYOUT_LIMIT, GRADIENT_LIMIT, SHADOW_LIMIT, IMAGE_LIMIT], [512, 256, 128, 64]);
    let mut cache = Cache::new(2);
    for key in 0..3 {
        cache.put(key, key * 10);
    }
    assert_eq!((cache.get(0), cache.get(2), cache.get(9)), (Some(&0), Some(&20), None));
    assert_eq!(cache.entries.len(), 3, "one above the limit");
    cache.put(3, 30);
    assert_eq!((cache.get(0), cache.get(3)), (None, Some(&30)), "it was emptied first");
    cache.put(3, 31);
    assert_eq!((cache.get(3), cache.entries.len()), (Some(&31), 1));
}

#[test]
fn pictures_are_fitted() {
    let dst = Rect::new(0, 0, 100, 50);
    let ratio = |num, den| Ratio { num, den };
    let scale = |fit| image_scale(fit, dst, 200, 200).map(|s| (s.x, s.y));
    assert_eq!(scale(Fit::Fill), Some((ratio(100, 200), ratio(50, 200))));
    assert_eq!(scale(Fit::Contain), Some((ratio(50, 200), ratio(50, 200))));
    assert_eq!(scale(Fit::Cover), Some((ratio(100, 200), ratio(100, 200))));
    assert_eq!(scale(Fit::Original), Some((ratio(1, 1), ratio(1, 1))));
    assert_eq!(image_scale(Fit::Fill, dst, 0, 200), None);
    assert_eq!(image_scale(Fit::Fill, Rect::new(0, 0, 0, 50), 200, 200), None);
}

#[test]
fn a_drag_offers_files_and_tells_what_became_of_them() {
    let paths = ["C:\\a".to_string()];
    let dragged = drag_files(&paths, true, |bytes, allowed| {
        assert_eq!(bytes, hdrop_bytes(&["C:\\a".to_string()]));
        assert_eq!(allowed, 7);
        Some(2)
    });
    assert_eq!(dragged, DragEffect::Move);
    let copied = drag_files(&paths, false, |_, allowed| {
        assert_eq!(allowed, 5);
        Some(1)
    });
    assert_eq!(copied, DragEffect::Copy);
    assert_eq!(drag_files(&paths, false, |_, _| None), DragEffect::Nothing);
    assert_eq!(drag_effect(Some(4)), DragEffect::Link);
    assert_eq!(drag_effect(Some(3)), DragEffect::Move);
    assert_eq!(drag_effect(Some(0)), DragEffect::Nothing);
}

#[test]
fn texts_are_aligned_in_their_width() {
    assert_eq!(text_alignment(Align::Start), TextAlignment::Leading);
    assert_eq!(text_alignment(Align::Stretch), TextAlignment::Leading);
    assert_eq!(text_alignment(Align::Center), TextAlignment::Center);
    assert_eq!(text_alignment(Align::End), TextAlignment::Trailing);
}

#[test]
fn utf16_comes_back_as_the_text() {
    for text in ["", "a世😀", "C:\\x\u{ffff}"] {
        assert_eq!(decode_wide(&wide(text)), text);
    }
    for units in [
        vec![0xD83D],
        vec![0xDE00, 0x61],
        vec![0xD83D, 0xD83D, 0xDE00],
        vec![0xD83D, 0x61],
    ] {
        assert_eq!(decode_wide(&units), String::from_utf16_lossy(&units));
    }
}

#[test]
fn dragged_paths_are_read_back() {
    let paths = ["C:\\a".to_string(), "D:\\世".to_string()];
    let bytes = hdrop_bytes(&paths);
    let start = bytes[0] as usize;
    let units: Vec<u16> = bytes[start..]
        .chunks(2)
        .map(|c| u16::from_le_bytes([c[0], c[1]]))
        .collect();
    let files: Vec<Vec<u16>> = units.split(|u| *u == 0).map(|f| f.to_vec()).collect();
    assert_eq!(dropped_paths(&files), paths, "files without a name are passed over");
}

#[test]
fn a_drag_answers_its_receiver() {
    let asked = |format, aspect, media| {
        query_get_data(Some(FormatRequest {
            format,
            aspect,
            media,
        }))
    };
    assert_eq!(asked(CF_HDROP, 1, TYMED_HGLOBAL), FormatAnswer::Available);
    assert_eq!(asked(CF_HDROP, 1, 5), FormatAnswer::Available);
    assert_eq!(asked(CF_HDROP, 1, 4), FormatAnswer::WrongMedium);
    assert_eq!(asked(CF_HDROP, 2, 1), FormatAnswer::WrongFormat);
    assert_eq!(asked(13, 1, 1), FormatAnswer::WrongFormat);
    assert_eq!(query_get_data(None), FormatAnswer::WrongFormat);
    assert_eq!(query_continue_drag(true, 1), DragStep::Cancel);
    assert_eq!(query_continue_drag(false, 0), DragStep::Drop);
    assert_eq!(query_continue_drag(false, 9), DragStep::Go);
}

#[test]
fn a_frame_is_drawn_in_one_order_and_shown_in_another() {
    let bg = Color {
        r: 10,
        g: 20,
        b: 30,
        a: 255,
    };
    let mut b = SkiaBackend::new();
    assert!(!b.begin(0, 5, bg));
    assert!(b.begin(4, 3, bg));
    let bytes = |b: &SkiaBackend| b.pixmap.as_ref().map(|p| p.data().to_vec()).unwrap_or_default();
    assert_eq!(bytes(&b), [10, 20, 30, 255].repeat(12));
    assert_eq!(b.drawn(Some(Rect::new(1, 1, 1, 1))), None, "a fresh buffer is drawn whole");
    assert_eq!(b.present(None, 0, 0), Some((0, 3)));
    assert_eq!(bytes(&b), [30, 20, 10, 255].repeat(12));
    assert!(b.begin(4, 3, bg));
    assert_eq!(bytes(&b), [30, 20, 10, 255].repeat(12), "what is there stays");
    let d = b.drawn(Some(Rect::new(2, 1, 9, 1)));
    assert_eq!(d, Some(Rect::new(2, 1, 2, 1)));
    assert_eq!(b.present(d, 2, 3), Some((1, 3)), "what was drawn and what is asked for");
    let mut expected = [30, 20, 10, 255].repeat(12);
    for px in [6, 7] {
        expected[px * 4] = 10;
        expected[px * 4 + 2] = 30;
    }
    assert_eq!(bytes(&b), expected, "only the damage was turned");
    let outside = b.drawn(Some(Rect::new(50, 50, 2, 2)));
    assert_eq!(b.present(outside, 0, 0), None, "there is nothing to show");
    b.ensure(0, -4);
    assert_eq!((b.buf_w, b.buf_h, b.fresh), (1, 1, true));
    assert_eq!(bytes(&b), vec![0; 4]);
}

#[test]
fn the_icon_tells_clicks_apart() {
    assert_eq!(classify(0x202), TrayEvent::Click { double: false });
    assert_eq!(classify(0x203), TrayEvent::Click { double: true });
    assert_eq!(classify(0x205), TrayEvent::RightClick);
    assert_eq!(classify(0x200), TrayEvent::Other);
}

fn text_of(units: &[u16]) -> String {
    let end = units.iter().position(|u| *u == 0).unwrap_or(units.len());
    String::from_utf16_lossy(&units[..end])
}

#[test]
fn notifications_and_tips_are_filled_in() {
    let bare = base_nid(7, 2);
    assert_eq!((bare.hwnd, bare.uid, bare.flags), (7, 2, 0));
    assert!(bare.tip.iter().chain(&bare.info).all(|u| *u == 0));
    let n = notify_nid(7, 2, "title", "body");
    assert_eq!((n.flags, n.info_flags), (NIF_INFO, NIIF_INFO));
    assert_eq!(text_of(&n.info_title), "title");
    assert_eq!(text_of(&n.info), "body");
    assert_eq!((n.info_title.len(), n.info.len()), (64, 256));
    let t = tooltip_nid(7, 2, "tip");
    assert_eq!(t.flags, NIF_TIP);
    assert_eq!(text_of(&t.tip), "tip");
}

#[test]
fn the_icon_survives_a_new_taskbar() {
    let mut s = TrayState::new(7, None, 40, "old");
    assert_eq!((s.icon, s.owns_icon), (40, false));
    s.remember_tooltip("new".to_string());
    let nid = s.registration();
    assert_eq!((nid.icon, text_of(&nid.tip)), (40, "new".to_string()));
    assert!(TrayState::new(7, Some(3), 40, "").owns_icon);
    assert!(readd(|| true, || panic!("it is there already")));
    assert!(readd(|| false, || true));
    assert!(!readd(|| false, || false));
}

#[test]
fn the_picture_of_the_icon_is_turned() {
    let px = [1, 2, 3, 4, 5, 6, 7, 8];
    assert_eq!(icon_pixels(2, 1, &px), Some(vec![3, 2, 1, 4, 7, 6, 5, 8]));
    assert_eq!(icon_pixels(3, 1, &px), None, "too few bytes");
    assert_eq!(icon_pixels(0, 1, &px), None);
    assert_eq!(icon_pixels(1, -1, &px), None);
}

#[test]
fn the_menu_has_numbers_that_run_its_items() {
    let mut now = Signals::new();
    let on = now.signal(true);
    let off = now.signal(false);
    let plain = |s: &str| TextContent::Plain(s.to_string());
    let hide: Callback = Box::new(|ctx| ctx.hide_window());
    let quit: Callback = Box::new(|ctx| ctx.quit());
    let mut tray = Tray::new().menu(vec![
        TrayMenuItem::check(plain("ab"), on, hide).enabled(off),
        TrayMenuItem::separator(),
        TrayMenuItem::item(plain("c"), quit),
    ]);
    let entries = tray.build_menu(&now);
    assert!(matches!(entries[1], MenuEntry::Separator));
    let lines = menu_lines(&entries);
    assert_eq!(lines[0].flags, MF_CHECKED | MF_GRAYED);
    assert_eq!((lines[0].id, lines[0].label.clone()), (1, Some(vec![0x61, 0x62, 0])));
    assert_eq!((lines[1].flags, lines[1].id), (MF_SEPARATOR, 0));
    assert!(lines[1].label.is_none());
    assert_eq!((lines[2].flags, lines[2].id), (0, 3));
    let mut queue = CallbackWindows::new();
    assert_eq!(run_item(&mut tray, 3, &mut queue), vec![TrayAction::Quit]);
    assert_eq!(run_item(&mut tray, 1, &mut queue), vec![TrayAction::Hide]);
    for id in [0, 2, 4, 99] {
        assert_eq!(run_item(&mut tray, id, &mut queue), vec![]);
    }
}
