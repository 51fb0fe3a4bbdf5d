//! Drops, input methods, locales and pointers of the X11 side.

use windui::geometry::Point;
use windui::linux::dnd::parse_uri_list;
use windui::linux::ime::splice;
use windui::linux::input::edge_direction;
use windui::linux::locale::{locales_from, posix_to_bcp47};
use windui::linux::window::ClickTracker;

#[test]
fn uri_list_yields_decoded_local_paths() {
    let data = b"# comment\r\nfile:///home/u/a%20b.txt\r\nfile://localhost/tmp/%E4%B8%AD.png\r\nhttps://x.org/y\r\nfile://otherhost/z\r\n";
    assert_eq!(
        parse_uri_list(data),
        vec!["/home/u/a b.txt".to_string(), "/tmp/中.png".to_string()]
    );
}

#[test]
fn malformed_escapes_are_dropped_not_panicking() {
    assert_eq!(
        parse_uri_list(b"file:///a%2\nfile:///b%zz\n"),
        Vec::<String>::new()
    );
}

fn s(v: &str) -> Vec<char> {
    v.chars().collect()
}

#[test]
fn preedit_draw_replaces_the_changed_span() {
    assert_eq!(splice(&s(""), 0, 0, &s("ni")), s("ni"));
    assert_eq!(splice(&s("ni"), 0, 2, &s("ni'h")), s("ni'h"));
    assert_eq!(splice(&s("abcd"), 1, 2, &s("X")), s("aXd"));
    assert_eq!(splice(&s("abcd"), 2, 0, &s("X")), s("abXcd"));
}

#[test]
fn out_of_range_draw_is_clamped_not_panicking() {
    assert_eq!(splice(&s("ab"), 5, 3, &s("X")), s("abX"));
    assert_eq!(splice(&s("ab"), -1, 9, &s("")), s(""));
}

#[test]
fn posix_locales_become_bcp47() {
    assert_eq!(posix_to_bcp47("zh_CN.UTF-8"), Some("zh-CN".into()));
    assert_eq!(posix_to_bcp47("en_US@euro"), Some("en-US".into()));
    assert_eq!(posix_to_bcp47("C"), None);
    assert_eq!(posix_to_bcp47("C.UTF-8"), None);
}

#[test]
fn language_list_takes_priority_and_dedups() {
    let env = |k: &str| match k {
        "LANGUAGE" => Some("zh_CN:en_US".to_string()),
        "LANG" => Some("en_US.UTF-8".to_string()),
        _ => None,
    };
    assert_eq!(locales_from(env), vec!["zh-CN", "en-US"]);
}

#[test]
fn falls_back_to_lang() {
    let env = |k: &str| {
        if k == "LANG" {
            Some("ja_JP.UTF-8".to_string())
        } else {
            None
        }
    };
    assert_eq!(locales_from(env), vec!["ja-JP"]);
}

#[test]
fn edges_map_to_ewmh_directions() {
    assert_eq!(edge_direction(Point::new(0, 0), 100, 100, 5), Some(0));
    assert_eq!(edge_direction(Point::new(50, 0), 100, 100, 5), Some(1));
    assert_eq!(edge_direction(Point::new(99, 99), 100, 100, 5), Some(4));
    assert_eq!(edge_direction(Point::new(0, 50), 100, 100, 5), Some(7));
    assert_eq!(edge_direction(Point::new(50, 50), 100, 100, 5), None);
}

#[test]
fn click_count_folds_into_one_two_cycle() {
    let mut t = ClickTracker::default();
    assert_eq!(t.press(1000, (10, 10), 1, 4), 1);
    assert_eq!(t.press(1100, (11, 10), 1, 4), 2);
    assert_eq!(t.press(1200, (11, 10), 1, 4), 1, "the third starts anew");
    assert_eq!(t.press(1300, (11, 10), 1, 4), 2);
    assert_eq!(t.press(2000, (11, 10), 1, 4), 1, "too late for a double click");
    assert_eq!(t.press(2100, (40, 10), 1, 4), 1, "too far for a double click");
}
