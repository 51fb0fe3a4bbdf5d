//! Key codes of key events.

use crate::event::Key;
use vstd::prelude::*;

verus! {

/// The named key at a key code.
pub open spec fn key_of_keycode(key_code: u16) -> Option<Key> {
    match key_code {
        0x30 => Some(Key::Tab),
        0x24 => Some(Key::Enter),
        0x4C => Some(Key::Enter),
        0x35 => Some(Key::Escape),
        0x31 => Some(Key::Space),
        0x33 => Some(Key::Backspace),
        0x75 => Some(Key::Delete),
        0x7B => Some(Key::Left),
        0x7C => Some(Key::Right),
        0x7D => Some(Key::Down),
        0x7E => Some(Key::Up),
        0x73 => Some(Key::Home),
        0x77 => Some(Key::End),
        0x74 => Some(Key::PageUp),
        0x79 => Some(Key::PageDown),
        _ => None,
    }
}

/// The named key at a key code.
pub fn map_special(key_code: u16) -> (r: Option<Key>)
    ensures
        r == key_of_keycode(key_code),
{
    match key_code {
        0x30 => Some(Key::Tab),
        0x24 => Some(Key::Enter),
        0x4C => Some(Key::Enter),
        0x35 => Some(Key::Escape),
        0x31 => Some(Key::Space),
        0x33 => Some(Key::Backspace),
        0x75 => Some(Key::Delete),
        0x7B => Some(Key::Left),
        0x7C => Some(Key::Right),
        0x7D => Some(Key::Down),
        0x7E => Some(Key::Up),
        0x73 => Some(Key::Home),
        0x77 => Some(Key::End),
        0x74 => Some(Key::PageUp),
        0x79 => Some(Key::PageDown),
        _ => None,
    }
}

/// The arrow keys have four codes in a row: left, right, down, up. Either of the two keys that end
/// a line is Enter, and every other named key has one code; those of the page and line keys lie
/// around the one that deletes forward.
pub proof fn codes_of_keys(code: u16, other: u16)
    ensures
        0x7B <= code <= 0x7E ==> key_of_keycode(code) == Some(
            seq![Key::Left, Key::Right, Key::Down, Key::Up][code - 0x7B],
        ),
        key_of_keycode(code) == Some(Key::Enter) <==> code == 0x24 || code == 0x4C,
        key_of_keycode(code) is Some && key_of_keycode(code) == key_of_keycode(other) ==> code
            == other || key_of_keycode(code) == Some(Key::Enter),
        0x73 <= code <= 0x75 ==> key_of_keycode(code) == Some(
            seq![Key::Home, Key::PageUp, Key::Delete][code - 0x73],
        ),
        key_of_keycode(0x77) == Some(Key::End) && key_of_keycode(0x79) == Some(Key::PageDown),
        key_of_keycode(0x30) == Some(Key::Tab) && key_of_keycode(0x31) == Some(Key::Space),
        key_of_keycode(0x33) == Some(Key::Backspace) && key_of_keycode(0x35) == Some(Key::Escape),
        key_of_keycode(code) matches Some(k) ==> !(k is Char) && !(k is Other) && !(k is F),
        key_of_keycode(code) is Some ==> 0x24 <= code <= 0x7E,
{
}

} // verus!
