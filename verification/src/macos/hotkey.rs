//! Global hot keys on macOS: key codes and modifier masks of the event manager, and what a
//! hot key event is for.

use crate::event::{Hotkey, Key};
use crate::text;
use vstd::prelude::*;

verus! {

/// The status of a call that succeeded.
pub const NO_ERR: i32 = 0;

/// The signature that, with the slot's index, identifies this application's hot keys.
pub const SIGNATURE: u32 = 0x77647569;

pub const CMD_KEY: u32 = 0x0100;

pub const SHIFT_KEY: u32 = 0x0200;

pub const OPTION_KEY: u32 = 0x0800;

pub const CONTROL_KEY: u32 = 0x1000;

/// A four-character code as a number, the first character in the highest byte.
pub open spec fn code_of(s: Seq<u8>) -> int {
    s[0] * 0x1000000 + s[1] * 0x10000 + s[2] * 0x100 + s[3]
}

pub fn four_cc(s: &[u8; 4]) -> (r: u32)
    ensures
        r == code_of(s@),
{
    s[0] as u32 * 0x1000000 + s[1] as u32 * 0x10000 + s[2] as u32 * 0x100 + s[3] as u32
}

/// The key code of an ASCII letter or digit. Key codes number positions on the keyboard and
/// have nothing to do with character values; the digits are out of order too.
pub open spec fn keycode_of_ascii(c: char) -> Option<u32> {
    match text::ascii_upper(c) {
        'A' => Some(0x00),
        'B' => Some(0x0B),
        'C' => Some(0x08),
        'D' => Some(0x02),
        'E' => Some(0x0E),
        'F' => Some(0x03),
        'G' => Some(0x05),
        'H' => Some(0x04),
        'I' => Some(0x22),
        'J' => Some(0x26),
        'K' => Some(0x28),
        'L' => Some(0x25),
        'M' => Some(0x2E),
        'N' => Some(0x2D),
        'O' => Some(0x1F),
        'P' => Some(0x23),
        'Q' => Some(0x0C),
        'R' => Some(0x0F),
        'S' => Some(0x01),
        'T' => Some(0x11),
        'U' => Some(0x20),
        'V' => Some(0x09),
        'W' => Some(0x0D),
        'X' => Some(0x07),
        'Y' => Some(0x10),
        'Z' => Some(0x06),
        '0' => Some(0x1D),
        '1' => Some(0x12),
        '2' => Some(0x13),
        '3' => Some(0x14),
        '4' => Some(0x15),
        '5' => Some(0x17),
        '6' => Some(0x16),
        '7' => Some(0x1A),
        '8' => Some(0x1C),
        '9' => Some(0x19),
        _ => None,
    }
}

pub fn mac_keycode_from_ascii(c: char) -> (r: Option<u32>)
    ensures
        r == keycode_of_ascii(c),
{
    match text::to_ascii_upper(c) {
        'A' => Some(0x00),
        'B' => Some(0x0B),
        'C' => Some(0x08),
        'D' => Some(0x02),
        'E' => Some(0x0E),
        'F' => Some(0x03),
        'G' => Some(0x05),
        'H' => Some(0x04),
        'I' => Some(0x22),
        'J' => Some(0x26),
        'K' => Some(0x28),
        'L' => Some(0x25),
        'M' => Some(0x2E),
        'N' => Some(0x2D),
        'O' => Some(0x1F),
        'P' => Some(0x23),
        'Q' => Some(0x0C),
        'R' => Some(0x0F),
        'S' => Some(0x01),
        'T' => Some(0x11),
        'U' => Some(0x20),
        'V' => Some(0x09),
        'W' => Some(0x0D),
        'X' => Some(0x07),
        'Y' => Some(0x10),
        'Z' => Some(0x06),
        '0' => Some(0x1D),
        '1' => Some(0x12),
        '2' => Some(0x13),
        '3' => Some(0x14),
        '4' => Some(0x15),
        '5' => Some(0x17),
        '6' => Some(0x16),
        '7' => Some(0x1A),
        '8' => Some(0x1C),
        '9' => Some(0x19),
        _ => None,
    }
}

/// The key code of a Windows virtual-key code: F1 to F12, the two page keys, letters and
/// digits.
pub open spec fn keycode_of_vk(vk: u32) -> Option<u32> {
    match vk {
        0x70 => Some(0x7A),
        0x71 => Some(0x78),
        0x72 => Some(0x63),
        0x73 => Some(0x76),
        0x74 => Some(0x60),
        0x75 => Some(0x61),
        0x76 => Some(0x62),
        0x77 => Some(0x64),
        0x78 => Some(0x65),
        0x79 => Some(0x6D),
        0x7A => Some(0x67),
        0x7B => Some(0x6F),
        0x21 => Some(0x74),
        0x22 => Some(0x79),
        _ => if 0x30 <= vk <= 0x39 || 0x41 <= vk <= 0x5A {
            keycode_of_ascii(vk as char)
        } else {
            None
        },
    }
}

pub fn mac_keycode_from_vk(vk: u32) -> (r: Option<u32>)
    ensures
        r == keycode_of_vk(vk),
{
    match vk {
        0x70 => Some(0x7A),
        0x71 => Some(0x78),
        0x72 => Some(0x63),
        0x73 => Some(0x76),
        0x74 => Some(0x60),
        0x75 => Some(0x61),
        0x76 => Some(0x62),
        0x77 => Some(0x64),
        0x78 => Some(0x65),
        0x79 => Some(0x6D),
        0x7A => Some(0x67),
        0x7B => Some(0x6F),
        0x21 => Some(0x74),
        0x22 => Some(0x79),
        _ => if (0x30 <= vk && vk <= 0x39) || (0x41 <= vk && vk <= 0x5A) {
            mac_keycode_from_ascii(vk as u8 as char)
        } else {
            None
        },
    }
}

/// The key code of a key, where it can be a hot key here. Characters outside ASCII have no
/// fixed position.
pub open spec fn keycode_of_key(key: Key) -> Option<u32> {
    match key {
        Key::Char(c) => if text::ascii_alnum(c) { keycode_of_ascii(c) } else { None },
        Key::Tab => Some(0x30),
        Key::Enter => Some(0x24),
        Key::Escape => Some(0x35),
        Key::Space => Some(0x31),
        Key::Left => Some(0x7B),
        Key::Right => Some(0x7C),
        Key::Up => Some(0x7E),
        Key::Down => Some(0x7D),
        Key::Home => Some(0x73),
        Key::End => Some(0x77),
        Key::Delete => Some(0x75),
        Key::Other(vk) => keycode_of_vk(vk),
        _ => None,
    }
}

pub fn mac_keycode_of(key: Key) -> (r: Option<u32>)
    ensures
        r == keycode_of_key(key),
{
    match key {
        Key::Char(c) => if text::is_ascii_alnum(c) {
            mac_keycode_from_ascii(c)
        } else {
            None
        },
        Key::Tab => Some(0x30),
        Key::Enter => Some(0x24),
        Key::Escape => Some(0x35),
        Key::Space => Some(0x31),
        Key::Left => Some(0x7B),
        Key::Right => Some(0x7C),
        Key::Up => Some(0x7E),
        Key::Down => Some(0x7D),
        Key::Home => Some(0x73),
        Key::End => Some(0x77),
        Key::Delete => Some(0x75),
        Key::Other(vk) => mac_keycode_from_vk(vk),
        _ => None,
    }
}

/// The modifier mask of a combination; `meta` is the Command key.
pub open spec fn mask_of_mods(hk: Hotkey) -> u32 {
    let ctrl = if hk.mods.ctrl { CONTROL_KEY } else { 0u32 };
    let alt = if hk.mods.alt { OPTION_KEY } else { 0u32 };
    let shift = if hk.mods.shift { SHIFT_KEY } else { 0u32 };
    let meta = if hk.mods.meta { CMD_KEY } else { 0u32 };
    ctrl | alt | shift | meta
}

pub fn mods_of(hk: Hotkey) -> (r: u32)
    ensures
        r == mask_of_mods(hk),
{
    let ctrl: u32 = if hk.mods.ctrl { CONTROL_KEY } else { 0 };
    let alt: u32 = if hk.mods.alt { OPTION_KEY } else { 0 };
    let shift: u32 = if hk.mods.shift { SHIFT_KEY } else { 0 };
    let meta: u32 = if hk.mods.meta { CMD_KEY } else { 0 };
    ctrl | alt | shift | meta
}

/// What a registration call needs.
#[derive(Clone, Copy, Debug, PartialEq, Eq, Structural)]
pub struct Registration {
    pub code: u32,
    pub mods: u32,
    pub signature: u32,
    pub id: u32,
}

/// The registration of a combination for a slot; a key without a key code has none.
pub fn registration(id: u32, hk: Hotkey) -> (r: Option<Registration>)
    ensures
        r == (match keycode_of_key(hk.key) {
            Some(code) => Some(
                Registration { code, mods: mask_of_mods(hk), signature: SIGNATURE, id },
            ),
            None => None,
        }),
{
    match mac_keycode_of(hk.key) {
        Some(code) => Some(Registration { code, mods: mods_of(hk), signature: SIGNATURE, id }),
        None => None,
    }
}

/// The handle that a registration call produced, where it counts as success: some error paths
/// report success without one.
pub fn registered(status: i32, handle: usize) -> (r: Option<usize>)
    ensures
        r == (if status == NO_ERR && handle != 0 { Some(handle) } else { None }),
{
    if status == NO_ERR && handle != 0 {
        Some(handle)
    } else {
        None
    }
}

/// The slot that a hot key event is for; `None` hands the event back to the system.
pub fn event_slot(status: i32, signature: u32, id: u32) -> (r: Option<usize>)
    ensures
        r == (if status == NO_ERR && signature == SIGNATURE { Some(id as usize) } else { None }),
{
    if status == NO_ERR && signature == SIGNATURE {
        Some(id as usize)
    } else {
        None
    }
}

/// No two letters or digits share a key code.
pub proof fn ascii_keycodes_are_distinct(a: char, b: char)
    requires
        text::ascii_alnum(a),
        text::ascii_alnum(b),
    ensures
        keycode_of_ascii(a) is Some,
        keycode_of_ascii(a) == keycode_of_ascii(b) ==> text::ascii_upper(a) == text::ascii_upper(b),
{
    let u = text::ascii_upper(a);
    let v = text::ascii_upper(b);
    assert('0' <= u <= '9' || 'A' <= u <= 'Z');
    assert('0' <= v <= '9' || 'A' <= v <= 'Z');
}

/// No two function keys share a key code.
pub proof fn function_keycodes_are_distinct(a: u32, b: u32)
    requires
        0x70 <= a <= 0x7B,
        0x70 <= b <= 0x7B,
    ensures
        keycode_of_vk(a) is Some,
        keycode_of_vk(a) == keycode_of_vk(b) ==> a == b,
{
}

/// A named key that can be registered is read back as the same key when it is pressed.
pub proof fn named_keycodes_round_trip(key: Key)
    requires
        !(key is Char) && !(key is Other),
        keycode_of_key(key) is Some,
    ensures
        keycode_of_key(key).unwrap() <= u16::MAX,
        super::keys::key_of_keycode(keycode_of_key(key).unwrap() as u16) == Some(key),
{
}

/// The letters and digits by the number of their position on the keyboard; a space stands for a
/// position of another key.
pub open spec fn positions() -> Seq<char> {
    seq![
        'A', 'S', 'D', 'F', 'H', 'G', 'Z', 'X', 'C', 'V', ' ', 'B', 'Q', 'W', 'E', 'R', 'Y', 'T',
        '1', '2', '3', '4', '6', '5', ' ', '9', '7', ' ', '8', '0', ' ', 'O', 'U', ' ', 'I', 'P',
        ' ', 'L', 'J', ' ', 'K', ' ', ' ', ' ', ' ', 'N', 'M',
    ]
}

/// The codes of letters and digits are positions on the keyboard: the letters of the home row from
/// the left, then those of the row below it and above it, and so on. A small letter is on the key
/// of its capital, and no other character has a position.
pub proof fn codes_number_the_positions(i: int, c: char)
    ensures
        0 <= i < 47 && positions()[i] != ' ' ==> keycode_of_ascii(positions()[i]) == Some(i as u32),
        keycode_of_ascii(c) matches Some(code) ==> code < 47 && positions()[code as int]
            == text::ascii_upper(c),
        keycode_of_ascii(c) == keycode_of_ascii(text::ascii_upper(c)),
        keycode_of_ascii(c) is Some <==> text::ascii_alnum(c),
{
    text::letters_have_two_cases(c);
    let u = text::ascii_upper(c);
    assert(text::ascii_upper(u) == u) by {
        text::letters_have_two_cases(u);
    }
    if text::ascii_alnum(c) {
        ascii_keycodes_are_distinct(c, c);
    }
}

/// The modifiers of a mask are bits of it: Command, Shift, Option and Control, each on its own.
pub proof fn masks_hold_the_modifiers(hk: Hotkey)
    ensures
        mask_of_mods(hk) / 0x100 % 2 == (if hk.mods.meta { 1int } else { 0 }),
        mask_of_mods(hk) / 0x200 % 2 == (if hk.mods.shift { 1int } else { 0 }),
        mask_of_mods(hk) / 0x800 % 2 == (if hk.mods.alt { 1int } else { 0 }),
        mask_of_mods(hk) / 0x1000 % 2 == (if hk.mods.ctrl { 1int } else { 0 }),
        mask_of_mods(hk) == (if hk.mods.meta { 0x100int } else { 0 }) + (if hk.mods.shift {
            0x200int
        } else {
            0
        }) + (if hk.mods.alt { 0x800int } else { 0 }) + (if hk.mods.ctrl { 0x1000int } else { 0 }),
{
    let c = if hk.mods.ctrl { 0x1000u32 } else { 0u32 };
    let a = if hk.mods.alt { 0x800u32 } else { 0u32 };
    let s = if hk.mods.shift { 0x200u32 } else { 0u32 };
    let m = if hk.mods.meta { 0x100u32 } else { 0u32 };
    assert(mask_of_mods(hk) == c | a | s | m);
    assert((c | a | s | m) == c + a + s + m) by (bit_vector)
        requires
            c == 0 || c == 0x1000,
            a == 0 || a == 0x800,
            s == 0 || s == 0x200,
            m == 0 || m == 0x100,
    ;
}

/// Combinations with different modifiers have different masks.
pub proof fn masks_differ(a: Hotkey, b: Hotkey)
    requires
        mask_of_mods(a) == mask_of_mods(b),
    ensures
        a.mods == b.mods,
{
    masks_hold_the_modifiers(a);
    masks_hold_the_modifiers(b);
}

/// The four characters of a code can be read back from it, the first from its highest byte. The
/// signature is such a code.
pub proof fn codes_spell_their_characters(s: Seq<u8>)
    requires
        s.len() == 4,
    ensures
        code_of(s) / 0x100_0000 == s[0],
        code_of(s) / 0x1_0000 % 0x100 == s[1],
        code_of(s) / 0x100 % 0x100 == s[2],
        code_of(s) % 0x100 == s[3],
        SIGNATURE == code_of(seq!['w' as u8, 'd' as u8, 'u' as u8, 'i' as u8]),
{
    let n = code_of(s);
    assert(n == (s[0] * 0x1_0000 + s[1] * 0x100 + s[2]) * 0x100 + s[3]);
    assert(n / 0x100 == (s[0] * 0x100 + s[1]) * 0x100 + s[2]);
    assert(n / 0x1_0000 == s[0] * 0x100 + s[1]);
}

/// A key is on the same position however it is named: by its character in either case, or by the
/// number that Windows has for it; the page keys by the number are the page keys of the keyboard.
pub proof fn names_of_a_key_agree(c: char, vk: u32)
    ensures
        text::ascii_alnum(c) ==> keycode_of_key(Key::Char(c)) == keycode_of_key(
            Key::Other(text::ascii_upper(c) as u32),
        ),
        text::ascii_alnum(c) ==> keycode_of_key(Key::Char(c)) is Some,
        !text::ascii_alnum(c) ==> keycode_of_key(Key::Char(c)) is None,
        vk == 0x21 || vk == 0x22 ==> (keycode_of_key(Key::Other(vk)) matches Some(code) && code <= 0xFFFF
            && super::keys::key_of_keycode(code as u16) == Some(
            if vk == 0x21 {
                Key::PageUp
            } else {
                Key::PageDown
            },
        )),
        vk > 0xFFFF ==> keycode_of_key(Key::Other(vk)) is None,
{
    text::letters_have_two_cases(c);
    let u = text::ascii_upper(c);
    text::letters_have_two_cases(u);
    if text::ascii_alnum(c) {
        assert((u as u32) as char == u);
        codes_number_the_positions(0, c);
        codes_number_the_positions(0, u);
    }
}

/// The function keys from the first to the twelfth, by their positions.
pub proof fn function_keys_have_their_positions(n: u32)
    requires
        1 <= n <= 12,
    ensures
        keycode_of_vk((0x6F + n) as u32) == Some(
            seq![
                0x7Au32,
                0x78,
                0x63,
                0x76,
                0x60,
                0x61,
                0x62,
                0x64,
                0x65,
                0x6D,
                0x67,
                0x6F,
            ][n - 1],
        ),
{
}

} // verus!
