//! Hot keys of the macOS side.

use windui::event::{Hotkey, Key};
use windui::macos::hotkey::{
    event_slot, four_cc, mac_keycode_from_ascii, mac_keycode_from_vk, mac_keycode_of, mods_of,
    registered, CMD_KEY, CONTROL_KEY, OPTION_KEY, SHIFT_KEY, SIGNATURE,
};
use windui::macos::keys::map_special;

#[test]
fn four_character_codes_are_big_endian() {
    assert_eq!(four_cc(b"keyb"), 0x6B657962);
    assert_eq!(four_cc(b"hkid"), 0x686B6964);
    assert_eq!(four_cc(b"----"), 0x2D2D2D2D);
}

#[test]
fn letters_map_to_key_positions_not_ascii() {
    assert_eq!(mac_keycode_of(Key::Char('a')), Some(0x00));
    assert_eq!(mac_keycode_of(Key::Char('A')), Some(0x00));
    assert_eq!(mac_keycode_of(Key::Char('d')), Some(0x02));
    assert_eq!(mac_keycode_of(Key::Char('z')), Some(0x06));
}

#[test]
fn digit_key_codes_are_not_in_order() {
    assert_eq!(mac_keycode_of(Key::Char('5')), Some(0x17));
    assert_eq!(mac_keycode_of(Key::Char('6')), Some(0x16), "6 lies below 5");
    assert_eq!(mac_keycode_of(Key::Char('7')), Some(0x1A));
    assert_eq!(mac_keycode_of(Key::Char('8')), Some(0x1C));
    assert_eq!(mac_keycode_of(Key::Char('9')), Some(0x19));
    assert_eq!(mac_keycode_of(Key::Char('0')), Some(0x1D));
}

#[test]
fn letter_and_digit_key_codes_differ() {
    let mut seen = std::collections::HashMap::new();
    for c in ('a'..='z').chain('0'..='9') {
        let code = mac_keycode_from_ascii(c).expect("every letter and digit has a key code");
        if let Some(prev) = seen.insert(code, c) {
            panic!("key code {code:#04X} is shared by {prev} and {c}");
        }
    }
    assert_eq!(seen.len(), 36);
}

#[test]
fn characters_beyond_ascii_are_no_hotkeys() {
    assert_eq!(mac_keycode_of(Key::Char('中')), None);
    assert_eq!(mac_keycode_of(Key::Char('é')), None);
}

#[test]
fn named_keys_agree_with_the_input_table() {
    for key in [
        Key::Tab,
        Key::Enter,
        Key::Escape,
        Key::Space,
        Key::Left,
        Key::Right,
        Key::Up,
        Key::Down,
        Key::Home,
        Key::End,
        Key::Delete,
    ] {
        let code = mac_keycode_of(key).expect("every named key has a key code");
        assert_eq!(
            map_special(code as u16),
            Some(key),
            "key code {code:#04X} means different keys in the two tables"
        );
    }
}

#[test]
fn function_keys_map_through_other() {
    assert_eq!(mac_keycode_of(Key::Other(0x70)), Some(0x7A));
    assert_eq!(mac_keycode_of(Key::Other(0x7B)), Some(0x6F), "F12");
    assert_eq!(mac_keycode_of(Key::Other(0x41)), Some(0x00));
}

#[test]
fn function_key_codes_differ() {
    let mut seen = std::collections::HashMap::new();
    for (i, vk) in (0x70..=0x7Bu32).enumerate() {
        let code = mac_keycode_from_vk(vk).expect("F1 to F12 have key codes");
        if let Some(prev) = seen.insert(code, i + 1) {
            panic!("key code {code:#04X} is shared by F{prev} and F{}", i + 1);
        }
    }
    assert_eq!(seen.len(), 12);
}

#[test]
fn keys_without_a_code_are_refused() {
    assert_eq!(mac_keycode_of(Key::Backspace), None);
    assert_eq!(mac_keycode_of(Key::Other(0x01)), None);
    assert_eq!(mac_keycode_of(Key::Other(u32::MAX)), None);
}

#[test]
fn modifiers_become_a_carbon_mask() {
    let hk = Hotkey::new(Key::Char('D')).ctrl().alt();
    let m = mods_of(hk);
    assert_eq!(m & CONTROL_KEY, CONTROL_KEY);
    assert_eq!(m & OPTION_KEY, OPTION_KEY);
    assert_eq!(m & SHIFT_KEY, 0, "no shift was asked for");
    assert_eq!(m & CMD_KEY, 0, "no command was asked for");
}

#[test]
fn meta_maps_to_command() {
    let hk = Hotkey::new(Key::Space).meta();
    assert_eq!(mods_of(hk), CMD_KEY);
}

#[test]
fn no_modifiers_make_no_mask() {
    assert_eq!(mods_of(Hotkey::new(Key::Escape)), 0);
}

#[test]
fn only_own_events_have_a_slot() {
    assert_eq!(event_slot(0, SIGNATURE, 3), Some(3));
    assert_eq!(event_slot(0, SIGNATURE + 1, 3), None);
    assert_eq!(event_slot(-50, SIGNATURE, 3), None);
}

#[test]
fn a_registration_needs_a_handle() {
    assert_eq!(registered(0, 0x1000), Some(0x1000));
    assert_eq!(registered(0, 0), None);
    assert_eq!(registered(-9878, 0x1000), None);
}
