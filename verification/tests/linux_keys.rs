//! Key symbols, hot keys and key maps.

use windui::event::{Hotkey, Key};
use windui::linux::hotkey::{keysym_of, mask_of};
use windui::linux::keys::{self, keysym_char, shortcut_code, special_key, Keymap, LOCK, MOD2, SHIFT};

#[test]
fn named_keys_round_trip_through_special_key() {
    for k in [
        Key::Tab,
        Key::Enter,
        Key::Escape,
        Key::Space,
        Key::Backspace,
        Key::Delete,
        Key::Left,
        Key::Right,
        Key::Up,
        Key::Down,
        Key::Home,
        Key::End,
        Key::PageUp,
        Key::PageDown,
        Key::Insert,
        Key::F(1),
        Key::F(12),
        Key::NumpadAdd,
        Key::ContextMenu,
    ] {
        let ks = keysym_of(k).unwrap();
        assert_eq!(special_key(ks), Some(k), "{k:?}");
    }
}

#[test]
fn letters_map_to_lowercase_keysyms() {
    assert_eq!(keysym_of(Key::Char('K')), Some(b'k' as u32));
    assert_eq!(keysym_of(Key::Other(b'K' as u32)), Some(b'k' as u32));
    assert_eq!(keysym_of(Key::Other(b'5' as u32)), Some(b'5' as u32));
    assert_eq!(keysym_of(Key::F(13)), None);
}

#[test]
fn modifiers_become_x_mask() {
    let hk = Hotkey::new(Key::Char('k')).ctrl().alt();
    assert_eq!(mask_of(hk), keys::CONTROL | keys::MOD1);
    assert_eq!(mask_of(Hotkey::new(Key::F(1)).meta()), keys::MOD4);
}

/// Two keys: key code 10 is a/A, key code 11 is keypad Home/7.
fn map() -> Keymap {
    Keymap::new(10, 2, vec![b'a' as u32, b'A' as u32, 0xff95, 0xffb7])
}

#[test]
fn shift_and_caps_select_case() {
    let m = map();
    assert_eq!(m.keysym(10, 0), b'a' as u32);
    assert_eq!(m.keysym(10, SHIFT), b'A' as u32);
    assert_eq!(m.keysym(10, LOCK), b'A' as u32);
    assert_eq!(m.keysym(10, LOCK | SHIFT), b'a' as u32);
}

#[test]
fn numlock_turns_keypad_into_digits() {
    let m = map();
    assert_eq!(special_key(m.keysym(11, 0)), Some(Key::Home));
    assert_eq!(keysym_char(m.keysym(11, MOD2)), Some('7'));
}

#[test]
fn unicode_and_latin1_keysyms_map_to_chars() {
    assert_eq!(keysym_char(0x0100_4e2d), Some('中'));
    assert_eq!(keysym_char(0xe9), Some('é'));
    assert_eq!(keysym_char(0xff0d), None);
}

#[test]
fn single_column_keysym_gets_implied_uppercase() {
    let m = Keymap::new(10, 1, vec![b'q' as u32]);
    assert_eq!(m.keysym(10, SHIFT), b'Q' as u32);
}

#[test]
fn keycode_lookup_inverts_the_table() {
    let m = map();
    assert_eq!(m.keycode_of(b'a' as u32), Some(10));
    assert_eq!(m.keycode_of(b'A' as u32), Some(10));
    assert_eq!(m.keycode_of(0xffb7), Some(11));
    assert_eq!(m.keycode_of(b'z' as u32), None);
}

#[test]
fn legacy_cyrillic_and_greek_keysyms_map_to_chars() {
    assert_eq!(keysym_char(0x6c1), Some('а'));
    assert_eq!(keysym_char(0x6df), Some('ъ'));
    assert_eq!(keysym_char(0x6e1), Some('А'));
    assert_eq!(keysym_char(0x6a3), Some('ё'));
    assert_eq!(keysym_char(0x6b0), Some('№'));
    assert_eq!(keysym_char(0x7c1), Some('Α'));
    assert_eq!(keysym_char(0x7d9), Some('Ω'));
    assert_eq!(keysym_char(0x7d3), None);
    assert_eq!(keysym_char(0x7e1), Some('α'));
    assert_eq!(keysym_char(0x7f3), Some('ς'));
    assert_eq!(keysym_char(0x7f9), Some('ω'));
}

#[test]
fn caps_lock_uppercases_cyrillic() {
    let m = Keymap::new(10, 2, vec![0x6d3, 0x6f3]);
    assert_eq!(keysym_char(m.keysym(10, LOCK)), Some('С'));
}

#[test]
fn shortcut_falls_back_to_latin_column() {
    // Russian in the first two columns, US Latin in the next two.
    let m = Keymap::new(10, 4, vec![0x6d3, 0x6f3, b'c' as u32, b'C' as u32]);
    assert_eq!(shortcut_code(m.base(10)), None);
    assert_eq!(m.ascii_on_key(10).and_then(shortcut_code), Some(b'C' as u32));
}

#[test]
fn function_keys_and_shortcut_codes() {
    assert_eq!(special_key(0xffbe), Some(Key::F(1)));
    assert_eq!(special_key(0xffc9), Some(Key::F(12)));
    assert_eq!(shortcut_code(b'c' as u32), Some(b'C' as u32));
    assert_eq!(shortcut_code(b'5' as u32), Some(b'5' as u32));
    assert_eq!(shortcut_code(b'-' as u32), None);
}
