//! The Windows side: registry, pixels, characters, clicks, the tray icon and file drags.

use windui::event::DragEffect;
use windui::geometry::Rect;
use windui::registry::LiveWindows;
use windui::surface::swap_rb_inplace;
use windui::win32::chars::accumulate_char;
use windui::win32::click::ClickTracker;
use windui::win32::dragdrop::{drag_files, hdrop_bytes};
use windui::win32::message::WM_TRAYICON;
use windui::win32::paint::swap_rb_rect;
use windui::win32::tray::{add_nid, is_taskbar_created, NIF_ICON, NIF_MESSAGE, NIF_TIP};

#[test]
fn hdrop_layout() {
    let b = hdrop_bytes(&["C:\\a.txt".to_string(), "C:\\b".to_string()]);
    let header = 20;
    assert_eq!(
        u32::from_le_bytes(b[0..4].try_into().unwrap()) as usize,
        header
    );
    let wide: Vec<u16> = b[header..]
        .chunks(2)
        .map(|c| u16::from_le_bytes([c[0], c[1]]))
        .collect();
    let s = String::from_utf16_lossy(&wide);
    assert_eq!(s, "C:\\a.txt\0C:\\b\0\0");
}

#[test]
fn an_empty_list_starts_no_drag() {
    let none: [String; 0] = [];
    assert_eq!(
        drag_files(&none, true, |_, _| panic!("no drag is started")),
        DragEffect::Nothing
    );
}

#[test]
fn single_window_close_is_last() {
    let mut w = LiveWindows::new();
    w.add(1, None);
    assert!(w.remove(1), "the only window was the last");
}

#[test]
fn only_the_last_window_reports_empty() {
    let mut w = LiveWindows::new();
    w.add(1, None);
    w.add(2, None);
    w.add(3, None);
    assert!(!w.remove(2), "two windows are left");
    assert!(!w.remove(1), "one window is left");
    assert!(w.remove(3), "the last one ends it");
}

#[test]
fn close_order_does_not_matter() {
    let mut w = LiveWindows::new();
    w.add(10, None);
    w.add(20, None);
    assert!(!w.remove(10));
    assert!(w.remove(20));
}

#[test]
fn partial_frame_swaps_only_the_damage_rect() {
    const W: i32 = 8;
    const H: i32 = 4;
    let rgba_red = [0xFFu8, 0x00, 0x00, 0xFF];
    let bgra_red = [0x00u8, 0x00, 0xFF, 0xFF];
    let mut buf: Vec<u8> = rgba_red
        .iter()
        .copied()
        .cycle()
        .take((W * H * 4) as usize)
        .collect();

    swap_rb_inplace(&mut buf);
    assert!(buf.chunks(4).all(|p| p == bgra_red), "a full frame is all BGRA");

    let dmg = Rect::new(2, 1, 3, 2);
    let stride = (W * 4) as usize;
    for y in dmg.y..dmg.bottom() {
        for x in dmg.x..dmg.right() {
            let o = y as usize * stride + x as usize * 4;
            buf[o..o + 4].copy_from_slice(&rgba_red);
        }
    }
    swap_rb_rect(&mut buf, W, dmg);

    for y in 0..H {
        for x in 0..W {
            let o = y as usize * stride + x as usize * 4;
            assert_eq!(&buf[o..o + 4], &bgra_red, "({x},{y}) is BGRA; the damage is {dmg:?}");
        }
    }
}

#[test]
fn removing_unknown_window_never_reports_empty() {
    let mut w = LiveWindows::new();
    w.add(1, None);
    assert!(!w.remove(999), "an unknown window is not the last one");
    assert_eq!(w.ids(), vec![1], "the others stay");
}

#[test]
fn double_remove_does_not_report_empty_twice() {
    let mut w = LiveWindows::new();
    w.add(1, None);
    w.add(2, None);
    assert!(!w.remove(1));
    assert!(w.remove(2), "the second was the last");
    assert!(!w.remove(2), "and it is reported once");
}

#[test]
fn single_key_finds_existing_window() {
    let mut w = LiveWindows::new();
    w.add(1, Some("settings".into()));
    assert_eq!(w.find_single("settings"), Some(1));
}

#[test]
fn different_single_keys_do_not_collide() {
    let mut w = LiveWindows::new();
    w.add(1, Some("settings".into()));
    w.add(2, Some("about".into()));
    assert_eq!(w.find_single("settings"), Some(1));
    assert_eq!(w.find_single("about"), Some(2));
    assert_eq!(w.find_single("help"), None, "nobody has this key");
}

#[test]
fn keyless_windows_never_match() {
    let mut w = LiveWindows::new();
    w.add(1, None);
    w.add(2, None);
    assert_eq!(w.find_single("settings"), None);
}

#[test]
fn single_key_is_released_when_window_closes() {
    let mut w = LiveWindows::new();
    w.add(1, Some("settings".into()));
    w.add(2, None);
    assert!(!w.remove(1), "one window is left");
    assert_eq!(w.find_single("settings"), None, "the key is free again");
}

#[test]
fn single_key_rebinds_after_reopen() {
    let mut w = LiveWindows::new();
    w.add(1, Some("settings".into()));
    assert!(w.remove(1));
    w.add(7, Some("settings".into()));
    assert_eq!(w.find_single("settings"), Some(7));
}

#[test]
fn bmp_char_passes_through() {
    let mut pend = None;
    assert_eq!(accumulate_char(&mut pend, b'A' as u16), Some('A'));
    assert_eq!(accumulate_char(&mut pend, 0x4E16), Some('世'));
    assert_eq!(pend, None, "nothing waits");
}

#[test]
fn surrogate_pair_combines_to_emoji() {
    let mut pend = None;
    assert_eq!(accumulate_char(&mut pend, 0xD83D), None, "the first half waits");
    assert_eq!(pend, Some(0xD83D));
    assert_eq!(accumulate_char(&mut pend, 0xDE00), Some('😀'));
    assert_eq!(pend, None);
}

#[test]
fn lone_low_surrogate_is_dropped() {
    let mut pend = None;
    assert_eq!(accumulate_char(&mut pend, 0xDE00), None);
    assert_eq!(pend, None);
}

#[test]
fn dangling_high_surrogate_recovers_on_bmp() {
    let mut pend = None;
    assert_eq!(accumulate_char(&mut pend, 0xD83D), None);
    assert_eq!(accumulate_char(&mut pend, b'X' as u16), Some('X'));
    assert_eq!(pend, None);
}

#[test]
fn second_high_surrogate_replaces_first() {
    let mut pend = None;
    assert_eq!(accumulate_char(&mut pend, 0xD83D), None);
    assert_eq!(accumulate_char(&mut pend, 0xD83C), None);
    assert_eq!(pend, Some(0xD83C));
    assert_eq!(accumulate_char(&mut pend, 0xDF08), Some('🌈'));
}

const DBL: u32 = 500;
const DX: i32 = 4;
const DY: i32 = 4;

#[test]
fn double_then_triple_then_reset() {
    let mut t = ClickTracker::default();
    assert_eq!(t.bump(1, 10, 10, 1000, DBL, DX, DY), 1);
    assert_eq!(t.bump(1, 11, 11, 1100, DBL, DX, DY), 2);
    assert_eq!(t.bump(1, 12, 12, 1200, DBL, DX, DY), 3);
    assert_eq!(t.bump(1, 12, 12, 1300, DBL, DX, DY), 3, "three is the most");
    assert_eq!(t.bump(1, 12, 12, 2000, DBL, DX, DY), 1, "too late");
}

#[test]
fn continuation_across_u32_wraparound() {
    let mut t = ClickTracker::default();
    let near_max = u32::MAX - 100;
    assert_eq!(t.bump(1, 10, 10, near_max, DBL, DX, DY), 1);
    let wrapped = near_max.wrapping_add(150);
    assert_eq!(t.bump(1, 10, 10, wrapped, DBL, DX, DY), 2);
}

#[test]
fn reset_on_far_move_or_other_button() {
    let mut t = ClickTracker::default();
    assert_eq!(t.bump(1, 10, 10, 1000, DBL, DX, DY), 1);
    assert_eq!(t.bump(1, 30, 10, 1100, DBL, DX, DY), 1, "too far");
    assert_eq!(t.bump(2, 30, 10, 1150, DBL, DX, DY), 1, "another button");
}

#[test]
fn registration_has_icon_callback_and_tip() {
    let nid = add_nid(0, 1, 0, "提示");
    assert_eq!(nid.flags, NIF_ICON | NIF_MESSAGE | NIF_TIP);
    assert_eq!(nid.callback_message, WM_TRAYICON);
    assert_eq!(nid.uid, 1);
    let tip: String = nid
        .tip
        .iter()
        .take_while(|c| **c != 0)
        .map(|c| char::from_u32(*c as u32).unwrap())
        .collect();
    assert_eq!(tip, "提示");
}

#[test]
fn a_long_tip_is_cut_and_ends_with_a_zero() {
    let long = "提".repeat(500);
    let nid = add_nid(0, 1, 0, &long);
    let n = nid.tip.len();
    assert_eq!(nid.tip[n - 1], 0, "a zero ends the text");
    assert!(nid.tip[..n - 1].iter().all(|c| *c != 0), "the rest is full");
}

#[test]
fn the_registered_broadcast_matches() {
    assert!(is_taskbar_created(0xC123, 0xC123));
    assert!(!is_taskbar_created(0xC124, 0xC123));
}

#[test]
fn nothing_matches_without_registration() {
    assert!(!is_taskbar_created(0, 0), "no message means it");
    assert!(!is_taskbar_created(0xC123, 0));
}
