//! Texts of the X11 side: the clipboard, drops, compositions and settings.

use windui::event::{Key, Preedit};
use windui::linux::clipboard::{
    next_target, notified, notified_property, received, ClipAtoms, Content, FetchStep,
    SelectionRequest, X11Clipboard, ATOM_STRING,
};
use windui::linux::dnd::{
    dnd_finished, dnd_query, enter_has_uris, file_uri_to_path, on_dnd_data, on_dnd_message,
    parse_uri_list, percent_decode, uri_list_paths, DndAction, DndQuery, DragState,
};
use windui::linux::ime::{commit_events, xim_locale, Bridge, CaretDirection, IcStep, Ime};
use windui::linux::keys::{is_modifier, keysym_char, pick_keysym, recase_keysym, Keymap, LOCK, SHIFT};
use windui::linux::locale::{
    locales_of, posix_to_bcp47, scheme_is_dark, theme_is_dark, xft_dpi_values,
};
use windui::linux::session::{Atoms, Message};

fn clip() -> ClipAtoms {
    ClipAtoms {
        clipboard: 100,
        utf8_string: 101,
        targets: 102,
        text: 103,
        incr: 104,
        transfer: 105,
    }
}

fn request(target: u32, property: u32) -> SelectionRequest {
    SelectionRequest {
        requestor: 1,
        selection: 100,
        target,
        property,
        time: 0,
    }
}

#[test]
fn copied_text_comes_back_when_pasted() {
    let a = clip();
    let mut c = X11Clipboard::new();
    assert_eq!(c.get_text(), None);
    assert!(matches!(c.answer(a, request(101, 7)).content, Content::Refused));
    c.set_text("中é");
    assert_eq!(c.get_text(), Some("中é".to_string()));
    for target in [101, 103, ATOM_STRING] {
        let answer = c.answer(a, request(target, 7));
        assert_eq!(notified_property(&answer, true), 7);
        assert_eq!(notified_property(&answer, false), 0);
        let Content::Text { kind, bytes } = answer.content else {
            panic!("a text is offered");
        };
        assert_eq!(kind, target);
        assert_eq!(received(a, kind, &bytes), Some("中é".to_string()));
    }
    let list = c.answer(a, request(102, 0));
    assert_eq!(list.property, 102, "an old client means its target");
    let Content::Targets(t) = list.content else {
        panic!("the list was asked for");
    };
    assert_eq!(t, vec![102, 101, 103, ATOM_STRING]);
    let other = c.answer(a, request(55, 7));
    assert_eq!(notified_property(&other, true), 0);
    c.selection_cleared();
    assert_eq!(c.get_text(), None);
}

#[test]
fn another_program_is_asked_twice() {
    let a = clip();
    assert_eq!(next_target(a, 0), Some(101));
    assert_eq!(next_target(a, 1), Some(ATOM_STRING));
    assert_eq!(next_target(a, 2), None);
    assert_eq!(notified(5, 6, 9), FetchStep::Wait);
    assert_eq!(notified(5, 5, 0), FetchStep::Refused);
    assert_eq!(notified(5, 5, 9), FetchStep::Read);
    assert_eq!(received(a, 104, b"x"), None, "in pieces");
    assert_eq!(received(a, 101, b"a\xffb"), Some("a\u{fffd}b".to_string()));
}

#[test]
fn addresses_become_paths() {
    let path = |s| file_uri_to_path(s);
    assert_eq!(path("file:///a/b"), Some("/a/b".to_string()));
    assert_eq!(path("file://LocalHost/a"), Some("/a".to_string()));
    assert_eq!(path("file://host/a"), None);
    assert_eq!(path("file://"), None);
    assert_eq!(path("http:///a"), None);
    assert_eq!(percent_decode("%41%e4%B8%AD+"), Some("A中+".to_string()));
    assert_eq!(percent_decode("%ff"), None, "not UTF-8");
    assert_eq!(percent_decode("/a%+1"), None, "two digits, and no sign");
    assert_eq!(percent_decode("%é"), None);
    assert_eq!(percent_decode("50%"), None);
    assert_eq!(
        uri_list_paths("\r\n #x\n\u{a0}file:///a \nfile:///b"),
        vec!["/a".to_string(), "/b".to_string()],
        "white space at the ends does not count"
    );
    assert_eq!(parse_uri_list(b"file:///\xff\n"), vec!["/\u{fffd}".to_string()]);
}

fn atoms() -> Atoms {
    Atoms {
        wm_protocols: 1,
        wm_delete_window: 2,
        net_wm_state: 3,
        maximized_vert: 4,
        maximized_horz: 5,
        state_hidden: 6,
        xdnd_enter: 7,
        xdnd_position: 8,
        xdnd_status: 9,
        xdnd_leave: 10,
        xdnd_drop: 11,
        xdnd_finished: 12,
        xdnd_selection: 13,
        xdnd_action_copy: 14,
        text_uri_list: 15,
    }
}

fn message(kind: u32, d1: u32, d2: u32) -> Message {
    Message {
        window: 50,
        kind,
        format: 32,
        d0: 60,
        d1,
        d2,
        d3: 0,
        d4: 0,
    }
}

fn reply(kind: u32, data: [u32; 5]) -> DndAction {
    let [d0, d1, d2, d3, d4] = data;
    DndAction::Reply {
        to: 60,
        kind,
        d0,
        d1,
        d2,
        d3,
        d4,
    }
}

#[test]
fn files_are_dropped() {
    let a = atoms();
    let mut drag: Option<DragState> = None;
    let mut send = |m, types: &[u32], blocked| on_dnd_message(&mut drag, a, m, types, 3, 4, blocked);
    assert_eq!(send(message(7, 0, 15), &[], false), DndAction::Nothing);
    assert_eq!(send(message(8, 0, 0), &[], false), reply(9, [50, 3, 0, 0, 14]));
    assert_eq!(send(message(8, 0, 0), &[], true), reply(9, [50, 2, 0, 0, 0]));
    assert_eq!(
        send(message(11, 0, 77), &[], false),
        DndAction::Convert {
            target: 50,
            time: 77
        }
    );
    assert_eq!(on_dnd_data(&mut drag, 51), None, "for another window");
    let g = on_dnd_data(&mut drag, 50).expect("the data was awaited");
    assert_eq!((g.x, g.y, drag), (3, 4, None));
    assert_eq!(dnd_finished(g, a, true), reply(12, [50, 1, 14, 0, 0]));
    assert_eq!(dnd_finished(g, a, false), reply(12, [50, 0, 0, 0, 0]));
    assert_eq!(on_dnd_data(&mut drag, 50), None);
}

#[test]
fn a_drag_without_files_is_refused() {
    let a = atoms();
    let mut drag: Option<DragState> = None;
    let mut send = |m, types: &[u32]| on_dnd_message(&mut drag, a, m, types, 0, 0, false);
    send(message(7, 0, 99), &[]);
    assert_eq!(send(message(8, 0, 0), &[]), reply(9, [50, 2, 0, 0, 0]));
    assert_eq!(send(message(11, 0, 0), &[]), reply(12, [50, 0, 0, 0, 0]));
    send(message(7, 1, 99), &[98, 15]);
    assert_eq!(send(message(8, 0, 0), &[]), reply(9, [50, 3, 0, 0, 14]), "in the full list");
    send(message(10, 0, 0), &[]);
    assert_eq!(drag, None);
    assert_eq!(dnd_query(a, message(7, 1, 0)), DndQuery::Types { source: 60 });
    assert_eq!(dnd_query(a, message(7, 0, 0)), DndQuery::Nothing);
    assert_eq!(
        dnd_query(a, message(8, 0, 0xffff_0005)),
        DndQuery::Translate {
            target: 50,
            x: -1,
            y: 5
        }
    );
    assert_eq!(dnd_query(a, message(11, 0, 0)), DndQuery::Nothing);
    assert!(enter_has_uris(&[1, 2], 2, &[]) && !enter_has_uris(&[1], 2, &[3]));
}

fn shown(p: &Preedit) -> (&str, usize) {
    (p.text.as_str(), p.caret)
}

#[test]
fn a_composition_is_kept_per_context() {
    let mut b = Bridge::new();
    b.preedit_start(1);
    assert_eq!(shown(&b.preedit_draw(1, 2, 0, 0, false, "ni")), ("ni", 2));
    assert_eq!(shown(&b.preedit_draw(2, 9, 0, 0, false, "x")), ("x", 1), "the caret stays inside");
    assert_eq!(shown(&b.preedit_draw(1, -1, 1, 1, false, "あ")), ("nあ", 0));
    let moved = |b: &mut Bridge, at, d| b.preedit_caret(1, at, d).0;
    assert_eq!(moved(&mut b, 0, CaretDirection::ForwardChar), 1);
    assert_eq!(moved(&mut b, 0, CaretDirection::LineEnd), 2);
    assert_eq!(moved(&mut b, 0, CaretDirection::ForwardChar), 2);
    assert_eq!(moved(&mut b, 0, CaretDirection::BackwardChar), 1);
    assert_eq!(moved(&mut b, 0, CaretDirection::Other), 1);
    assert_eq!(moved(&mut b, 0, CaretDirection::LineStart), 0);
    assert_eq!(moved(&mut b, 0, CaretDirection::BackwardChar), 0);
    assert_eq!(moved(&mut b, -3, CaretDirection::AbsolutePosition), 0);
    assert_eq!(moved(&mut b, 7, CaretDirection::AbsolutePosition), 2);
    assert_eq!(shown(&b.preedit_draw(1, 0, 0, 1, true, "ignored")), ("あ", 0));
    assert!(!b.preedit_done(1).is_active());
    assert_eq!(b.preedit_caret(1, 0, CaretDirection::LineEnd).0, 0);
    assert_eq!(shown(&b.preedit_draw(2, 0, 0, 0, false, "")), ("x", 0), "the other stays");
}

#[test]
fn contexts_follow_their_windows() {
    let mut ime = Ime::new();
    assert!(!ime.create_ic(10) && !ime.create_ic(11));
    assert!(ime.destroy_ic(11).is_none());
    assert_eq!(ime.on_ready(), vec![10]);
    assert!(ime.create_ic(10));
    ime.ic_requested(10);
    ime.ic_requested(20);
    assert!(ime.destroy_ic(20).is_none(), "it has no context yet");
    assert_eq!(ime.focus(10, true), None);
    assert_eq!(ime.ic_created(5), IcStep::Entered { focus: true });
    assert_eq!(ime.ic_created(6), IcStep::Destroy, "its window is gone");
    assert_eq!(ime.ic_created(7), IcStep::Destroy, "nobody asked");
    assert_eq!((ime.ic_of(10), ime.window_of(5)), (Some(5), Some(10)));
    assert_eq!((ime.ic_of(20), ime.window_of(6)), (None, None));
    assert_eq!(ime.focus(10, false), Some(5));
    assert_eq!(ime.focused, None);
    let (ic, spot) = ime.set_spot(10, -4, 40_000).expect("the caret moved");
    assert_eq!((ic, spot.x, spot.y), (5, 0, i16::MAX));
    assert!(ime.set_spot(10, -9, 50_000).is_none(), "the same place");
    assert!(ime.set_spot(20, 1, 1).is_none());
    let mut bridge = Bridge::new();
    bridge.preedit_draw(5, 1, 0, 0, false, "x");
    assert_eq!(ime.reset(&mut bridge, 10), Some(5));
    assert!(bridge.preedit.is_empty());
    assert_eq!(ime.reset(&mut bridge, 20), None);
    assert_eq!(ime.destroy_ic(10), Some(5));
    assert_eq!(ime.ic_of(10), None);
}

#[test]
fn committed_text_is_typed() {
    let keys: Vec<Key> = commit_events("a\u{7}中").iter().map(|e| e.key).collect();
    assert_eq!(keys, vec![Key::Char('a'), Key::Char('中')]);
    let set = |v: [Option<&str>; 3]| {
        xim_locale(&v.iter().map(|s| s.map(|t| t.to_string())).collect())
    };
    assert_eq!(set([None, Some(""), Some("zh_CN.UTF-8")]), "zh_CN");
    assert_eq!(set([Some("ja_JP"), None, Some("de_DE")]), "ja_JP");
    assert_eq!(set([Some(".UTF-8"), None, Some("de_DE")]), "C");
    assert_eq!(set([None, None, None]), "C");
}

#[test]
fn settings_name_languages_and_themes() {
    assert_eq!(posix_to_bcp47(" de_DE "), Some("de-DE".to_string()), "white space is cut off");
    assert_eq!(posix_to_bcp47("\u{a0}POSIX"), None);
    assert_eq!(posix_to_bcp47("@euro"), None);
    let some = |s: &str| Some(s.to_string());
    assert_eq!(
        locales_of(&some(""), &some(""), &some("fr_FR"), &some("en_US")),
        vec!["fr-FR"]
    );
    assert_eq!(
        locales_of(&some("de:C:de:en"), &some("C"), &None, &some("fr")),
        vec!["de", "en"],
        "the first that is set decides, even where it names no language"
    );
    assert!(locales_of(&None, &None, &None, &None).is_empty());
    assert!(theme_is_dark("Adwaita:DARK") && theme_is_dark("Yaru-dark"));
    assert!(!theme_is_dark("Adwaita") && !theme_is_dark("dark"));
    assert!(scheme_is_dark(b"'prefer-dark'\n") && scheme_is_dark(b"\xffdark"));
    assert!(!scheme_is_dark(b"'default'\n"));
}

#[test]
fn xft_dpi_is_parsed_from_resource_string() {
    let dpi = |s: &str| -> Option<f32> { xft_dpi_values(s).iter().find_map(|v| v.parse().ok()) };
    assert_eq!(dpi("Xft.antialias:\t1\nXft.dpi:\t192\n"), Some(192.0));
    assert_eq!(dpi("Xft.antialias:\t1\n"), None);
    assert_eq!(
        xft_dpi_values(" Xft.dpi : x \nXft.dpi:96:5\nXft.dpi"),
        vec!["x", "96:5"]
    );
}

#[test]
fn keysyms_follow_case_and_locks() {
    assert_eq!(recase_keysym(0x61, true, 'A'), 0x41);
    assert_eq!(recase_keysym(0x0100_0430, true, 'А'), 0x0100_0410);
    assert_eq!(recase_keysym(0x41, false, 'A'), 0x41);
    assert_eq!(pick_keysym(0x61, 0x41, true, LOCK), 0x41);
    assert_eq!(pick_keysym(0x61, 0x41, true, LOCK | SHIFT), 0x61);
    assert_eq!(pick_keysym(0x31, 0x21, false, LOCK), 0x31);
    assert_eq!(keysym_char(0x0100_4e2d), Some('中'));
    assert_eq!(keysym_char(0x0100_d800), None);
    assert_eq!(keysym_char(0xff0d), None);
    assert!(is_modifier(0xffe1) && !is_modifier(0x61));
    let german = Keymap::new(8, 2, vec![0xdf, 0, 0xe4, 0]);
    assert_eq!(german.keysym(9, SHIFT), 0xc4, "the capital is implied");
    assert_eq!(german.keysym(8, SHIFT), 0x53, "the first letter of a capital of two");
    assert_eq!(german.base(200), 0);
    assert_eq!(Keymap::default().keycode_of(0x61), None);
}
