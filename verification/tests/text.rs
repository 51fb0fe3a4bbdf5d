//! The operations on characters that the platforms share.

use windui::text::{
    chars_of, contains, decimal_of, ends_with, eq_ignore_ascii_case, find, first_upper,
    is_ascii_alnum,
    is_ascii_graphic, is_char, is_control, lines_of, lower_all, push_all, same_chars, same_text,
    split_at, starts_with, string_of, sub_chars, to_ascii_lower, to_ascii_upper, trim,
};

fn strings(parts: Vec<Vec<char>>) -> Vec<String> {
    parts.iter().map(|p| string_of(p)).collect()
}

#[test]
fn lines_end_like_the_standard_ones() {
    for s in ["", "a", "a\n", "a\r\nb", "a\n\nb\r", "\n", "a\r\n\r\n"] {
        let expected: Vec<String> = s.lines().map(|l| l.to_string()).collect();
        assert_eq!(strings(lines_of(&chars_of(s))), expected, "{s:?}");
    }
}

#[test]
fn splitting_keeps_empty_parts() {
    for s in ["", ":", "a:b", "a::b:", ":a"] {
        let expected: Vec<String> = s.split(':').map(|l| l.to_string()).collect();
        assert_eq!(strings(split_at(&chars_of(s), ':')), expected, "{s:?}");
    }
}

#[test]
fn trimming_takes_white_space_of_any_script() {
    for s in ["", "  ", " a b\t", "\u{3000}a\u{a0}", "a"] {
        assert_eq!(string_of(&trim(&chars_of(s))), s.trim(), "{s:?}");
    }
}

#[test]
fn white_space_is_the_standard_one() {
    for c in '\0'..=char::MAX {
        assert_eq!(trim(&[c]).is_empty(), c.is_whitespace(), "{c:?}");
    }
}

#[test]
fn capitals_are_the_standard_ones() {
    for c in ['a', 'é', 'ß', 'ж', '1', 'ŉ'] {
        assert_eq!(Some(first_upper(c)), c.to_uppercase().next(), "{c:?}");
    }
}

#[test]
fn parts_are_found() {
    let s = chars_of("Adwaita-dark");
    assert!(contains(&s, "dark") && contains(&s, "") && !contains(&s, "Dark"));
    assert!(starts_with(&s, "Adw") && !starts_with(&s, "dw"));
    assert!(ends_with(&s, "-dark") && !ends_with(&s, "Adwaita-darker"));
    assert_eq!((find(&s, 'a', 0), find(&s, 'a', 4), find(&s, '?', 0)), (3, 6, 12));
    assert_eq!(string_of(&sub_chars(&s, 3, 7)), "aita");
}

#[test]
fn texts_are_compared() {
    assert!(same_text("a世", "a世") && !same_text("a", "A"));
    assert!(is_char("0", '0') && !is_char("00", '0') && !is_char("", '0'));
    assert!(same_chars(&['a'], &['a']) && !same_chars(&['a'], &['a', 'b']));
    let eq = |a, b| eq_ignore_ascii_case(&chars_of(a), &chars_of(b));
    assert!(eq("UTF-8", "utf-8") && !eq("É", "é") && !eq("ab", "abc"));
}

#[test]
fn ascii_letters_change_their_case() {
    for c in ['a', 'Z', '0', '[', 'é', '世'] {
        assert_eq!(to_ascii_lower(c), c.to_ascii_lowercase());
        assert_eq!(to_ascii_upper(c), c.to_ascii_uppercase());
        assert_eq!(is_ascii_alnum(c), c.is_ascii_alphanumeric());
        assert_eq!(is_ascii_graphic(c), c.is_ascii_graphic());
    }
    assert_eq!(string_of(&lower_all(&chars_of("AbÉ"))), "abÉ");
    for c in ['\u{0}', '\u{1f}', ' ', '\u{7f}', '\u{9f}', '\u{a0}'] {
        assert_eq!(is_control(c), c.is_control(), "{c:?}");
    }
}

#[test]
fn numbers_are_written_in_decimal() {
    for n in [0, 9, 10, 1024, usize::MAX] {
        assert_eq!(string_of(&decimal_of(n)), n.to_string());
    }
    let mut out = chars_of("a");
    push_all(&mut out, &chars_of("bc"));
    assert_eq!(string_of(&out), "abc");
}
