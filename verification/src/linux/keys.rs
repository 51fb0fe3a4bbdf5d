//! Key codes to keysyms, and keysyms to keys and characters.
//!
//! Works on the core protocol's keyboard mapping table: the first two columns are the plain
//! and the shifted keysym of the first group; Caps Lock and Num Lock adjust the choice.

use crate::event::Key;
use crate::text;
use vstd::prelude::*;
use vstd::utf8::*;

verus! {

pub const SHIFT: u16 = 1;

pub const LOCK: u16 = 2;

pub const CONTROL: u16 = 4;

/// Alt.
pub const MOD1: u16 = 8;

/// Num Lock on nearly every layout.
pub const MOD2: u16 = 16;

/// Super.
pub const MOD4: u16 = 64;

/// Keysyms `0x6a1..=0x6ff`: the legacy Cyrillic block, in keysym order.
pub const CYRILLIC: [char; 95] = [
    'ђ', 'ѓ', 'ё', 'є', 'ѕ', 'і', 'ї', 'ј', 'љ', 'њ', 'ћ', 'ќ', 'ґ', 'ў', 'џ',
    '№', 'Ђ', 'Ѓ', 'Ё', 'Є', 'Ѕ', 'І', 'Ї', 'Ј', 'Љ', 'Њ', 'Ћ', 'Ќ', 'Ґ', 'Ў', 'Џ',
    'ю', 'а', 'б', 'ц', 'д', 'е', 'ф', 'г', 'х', 'и', 'й', 'к', 'л', 'м', 'н', 'о',
    'п', 'я', 'р', 'с', 'т', 'у', 'ж', 'в', 'ь', 'ы', 'з', 'ш', 'э', 'щ', 'ч', 'ъ',
    'Ю', 'А', 'Б', 'Ц', 'Д', 'Е', 'Ф', 'Г', 'Х', 'И', 'Й', 'К', 'Л', 'М', 'Н', 'О',
    'П', 'Я', 'Р', 'С', 'Т', 'У', 'Ж', 'В', 'Ь', 'Ы', 'З', 'Ш', 'Э', 'Щ', 'Ч', 'Ъ',
];

/// Keysyms `0x7c1..=0x7f9`: the legacy Greek block in keysym order; `'\0'` is unassigned.
pub const GREEK: [char; 57] = [
    'Α', 'Β', 'Γ', 'Δ', 'Ε', 'Ζ', 'Η', 'Θ', 'Ι', 'Κ', 'Λ', 'Μ', 'Ν', 'Ξ', 'Ο', 'Π',
    'Ρ', 'Σ', '\0', 'Τ', 'Υ', 'Φ', 'Χ', 'Ψ', 'Ω',
    '\0', '\0', '\0', '\0', '\0', '\0', '\0',
    'α', 'β', 'γ', 'δ', 'ε', 'ζ', 'η', 'θ', 'ι', 'κ', 'λ', 'μ', 'ν', 'ξ', 'ο', 'π',
    'ρ', 'σ', 'ς', 'τ', 'υ', 'φ', 'χ', 'ψ', 'ω',
];

/// The keyboard mapping: `syms[(keycode - min) * per + column]`.
pub struct Keymap {
    min: u8,
    per: usize,
    syms: Vec<u32>,
}

/// A keyboard mapping as a value: the least key code, the number of columns, and the table
/// row by row.
pub struct KeymapView {
    pub min: u8,
    pub per: nat,
    pub syms: Seq<u32>,
}

impl KeymapView {
    /// The keysym in a column of a key, `0` where the table has none.
    pub open spec fn column(self, keycode: u8, col: int) -> u32 {
        let i = (keycode - self.min) * self.per + col;
        if keycode < self.min || !(0 <= col < self.per) || i >= self.syms.len() {
            0
        } else {
            self.syms[i]
        }
    }

    /// The number of complete rows.
    pub open spec fn rows(self) -> int {
        if self.per == 0 { 0 } else { self.syms.len() as int / self.per as int }
    }

    /// Row `i` shows keysym `ks` in some column.
    pub open spec fn row_has(self, i: int, ks: u32) -> bool {
        self.syms.subrange(i * self.per, (i + 1) * self.per).contains(ks)
    }

    /// The first ASCII letter or digit keysym of a key, from a column on.
    pub open spec fn ascii_from(self, keycode: u8, col: int) -> Option<u32>
        decreases self.per - col,
    {
        if !(0 <= col < self.per) {
            None
        } else if alnum_keysym(self.column(keycode, col)) {
            Some(self.column(keycode, col))
        } else {
            self.ascii_from(keycode, col + 1)
        }
    }

    /// The keysym of a key under a modifier state.
    pub open spec fn keysym(self, keycode: u8, state: u16) -> u32 {
        let lower = self.column(keycode, 0);
        let second = self.column(keycode, 1);
        let upper = if second == 0 { upper_keysym(lower) } else { second };
        chosen_keysym(lower, upper, letter(lower), state)
    }
}

impl View for Keymap {
    type V = KeymapView;

    closed spec fn view(&self) -> KeymapView {
        KeymapView { min: self.min, per: self.per as nat, syms: self.syms@ }
    }
}

/// Which of a key's two keysyms a modifier state selects. On the keypad with Num Lock the
/// second one is the plain one; otherwise Shift selects it, and Caps Lock inverts Shift on
/// letters.
pub open spec fn chosen_keysym(lower: u32, upper: u32, lower_is_letter: bool, state: u16) -> u32 {
    let shift = state & SHIFT != 0;
    if keypad(upper) && state & MOD2 != 0 {
        if shift { lower } else { upper }
    } else if shift != (state & LOCK != 0 && lower_is_letter) {
        upper
    } else {
        lower
    }
}

/// A keypad keysym.
pub open spec fn keypad(ks: u32) -> bool {
    0xff80 <= ks <= 0xffbd
}

/// A keysym that Caps Lock acts on.
pub open spec fn letter(ks: u32) -> bool {
    ||| 'a' as u32 <= ks <= 'z' as u32
    ||| 0xe0 <= ks <= 0xfe && ks != 0xf7
    ||| (char_of_keysym(ks) matches Some(c) && text::char_lowercase(c))
}

/// The capital's keysym of a small letter's keysym; other keysyms are their own.
pub open spec fn upper_keysym(ks: u32) -> u32 {
    match char_of_keysym(ks) {
        Some(c) => cased_keysym(ks, text::char_lowercase(c), text::char_upper(c)[0]),
        None => ks,
    }
}

/// The keysym of `upper` where the character is a small letter, else the keysym itself.
pub open spec fn cased_keysym(ks: u32, lowercase: bool, upper: char) -> u32 {
    if lowercase { keysym_of_char(upper) } else { ks }
}

/// The keysym of a character: Latin-1 as it stands, else in the Unicode block.
pub open spec fn keysym_of_char(c: char) -> u32 {
    let cp = c as u32;
    if 0x20 <= cp <= 0x7e || 0xa0 <= cp <= 0xff { cp } else { 0x0100_0000u32 | cp }
}

/// The entry of a table of characters, where it is assigned.
pub open spec fn table_entry(table: Seq<char>, off: int) -> Option<char> {
    if 0 <= off < table.len() && table[off] != '\0' { Some(table[off]) } else { None }
}

/// The text character that a keysym stands for; control keys stand for none.
pub open spec fn char_of_keysym(ks: u32) -> Option<char> {
    if 0x20 <= ks <= 0x7e || 0xa0 <= ks <= 0xff {
        Some(ks as char)
    } else if 0x0100_0100 <= ks <= 0x0110_ffff {
        let cp = (ks - 0x0100_0000) as u32;
        if is_scalar(cp) { Some(cp as char) } else { None }
    } else if 0xffb0 <= ks <= 0xffb9 {
        Some(('0' as u32 + (ks - 0xffb0)) as char)
    } else if ks == 0xffaa {
        Some('*')
    } else if ks == 0xffab {
        Some('+')
    } else if ks == 0xffad {
        Some('-')
    } else if ks == 0xffae {
        Some('.')
    } else if ks == 0xffaf {
        Some('/')
    } else if ks == 0xff80 {
        Some(' ')
    } else if 0x06a1 <= ks <= 0x06ff {
        table_entry(CYRILLIC@, ks - 0x06a1)
    } else if 0x07c1 <= ks <= 0x07f9 {
        table_entry(GREEK@, ks - 0x07c1)
    } else {
        None
    }
}

impl Keymap {
    #[verifier::type_invariant]
    spec fn well_formed(self) -> bool {
        self.per <= 255
    }

    /// A mapping of `per` columns, whose first row is key code `min`.
    pub fn new(min: u8, per: u8, syms: Vec<u32>) -> (r: Keymap)
        ensures
            r@ == (KeymapView { min, per: per as nat, syms: syms@ }),
    {
        Keymap { min, per: per as usize, syms }
    }

    fn col(&self, keycode: u8, col: usize) -> (r: u32)
        ensures
            r == self@.column(keycode, col as int),
    {
        proof {
            use_type_invariant(self);
        }
        if keycode < self.min || col >= self.per {
            return 0;
        }
        let row: usize = (keycode - self.min) as usize;
        assert(row * self.per <= 255 * 255) by (nonlinear_arith)
            requires
                row <= 255,
                self.per <= 255,
        ;
        let i: usize = row * self.per + col;
        if i < self.syms.len() {
            self.syms[i]
        } else {
            0
        }
    }

    /// The keysym without modifiers, which shortcuts go by.
    pub fn base(&self, keycode: u8) -> (r: u32)
        ensures
            r == self@.column(keycode, 0),
    {
        self.col(keycode, 0)
    }

    /// The key code whose row shows a keysym, in any column: with several layouts loaded the
    /// Latin letters stand in the third and fourth. The first such row counts.
    pub fn keycode_of(&self, ks: u32) -> (r: Option<u8>)
        ensures
            match r {
                Some(k) => exists|i: int|
                    0 <= i < self@.rows() && #[trigger] self@.row_has(i, ks) && k == (self@.min + i)
                        % 256 && forall|j: int| 0 <= j < i ==> !#[trigger] self@.row_has(j, ks),
                None => forall|j: int|
                    0 <= j < self@.rows() ==> !#[trigger] self@.row_has(j, ks),
            },
    {
        proof {
            use_type_invariant(self);
        }
        if self.per == 0 {
            return None;
        }
        let len: usize = self.syms.len();
        let n: usize = len / self.per;
        let per: usize = self.per;
        let mut i: usize = 0;
        while i < n
            invariant
                i <= n,
                per == self.per,
                0 < per <= 255,
                len == self.syms@.len(),
                n == self.syms@.len() as int / per as int,
                n == self@.rows(),
                forall|j: int| 0 <= j < i ==> !#[trigger] self@.row_has(j, ks),
            decreases n - i,
        {
            assert((i + 1) * per <= n * per && n * per <= self.syms@.len() && i * per + per == (i
                + 1) * per && 0 <= i * per) by (nonlinear_arith)
                requires
                    i < n,
                    0 < per,
                    n == self.syms@.len() as int / per as int,
            ;
            let start: usize = i * per;
            let ghost row = self.syms@.subrange(i * per, (i + 1) * per);
            let mut c: usize = 0;
            while c < per
                invariant
                    c <= per,
                    i < n,
                    per == self.per,
                    start == i * per,
                    len == self.syms@.len(),
                    start + per <= len,
                    start + per == (i + 1) * per,
                    row == self.syms@.subrange(i * per, (i + 1) * per),
                    n == self@.rows(),
                    forall|j: int| 0 <= j < i ==> !#[trigger] self@.row_has(j, ks),
                    forall|j: int| 0 <= j < c ==> row[j] != ks,
                decreases per - c,
            {
                if self.syms[start + c] == ks {
                    assert(row[c as int] == ks);
                    assert(self@.row_has(i as int, ks));
                    return Some(self.min.wrapping_add((i % 256) as u8));
                }
                c += 1;
            }
            assert(!self@.row_has(i as int, ks));
            i += 1;
        }
        None
    }

    /// The first ASCII letter or digit keysym among a key's columns: on a non-Latin layout a
    /// shortcut still means the Latin letter of that key.
    pub fn ascii_on_key(&self, keycode: u8) -> (r: Option<u32>)
        ensures
            r == self@.ascii_from(keycode, 0),
    {
        let mut c: usize = 0;
        while c < self.per
            invariant
                c <= self.per,
                self@.ascii_from(keycode, 0) == self@.ascii_from(keycode, c as int),
            decreases self.per - c,
        {
            let ks: u32 = self.col(keycode, c);
            if let Some(ch) = keysym_char(ks) {
                if text::is_ascii_alnum(ch) {
                    return Some(ks);
                }
            }
            c += 1;
        }
        None
    }

    /// The keysym of a key under a modifier state. A key with one column only gets the
    /// capital implied by the protocol.
    pub fn keysym(&self, keycode: u8, state: u16) -> (r: u32)
        ensures
            r == self@.keysym(keycode, state),
    {
        let lower: u32 = self.col(keycode, 0);
        let mut upper: u32 = self.col(keycode, 1);
        if upper == 0 {
            upper = to_upper(lower);
        }
        pick_keysym(lower, upper, is_letter(lower), state)
    }
}

impl Default for Keymap {
    fn default() -> (r: Keymap)
        ensures
            r@ == (KeymapView { min: 0, per: 0, syms: Seq::empty() }),
    {
        Keymap { min: 0, per: 0, syms: Vec::new() }
    }
}

/// A keysym of an ASCII letter or digit.
pub open spec fn alnum_keysym(ks: u32) -> bool {
    char_of_keysym(ks) matches Some(c) && text::ascii_alnum(c)
}

/// Chooses between a key's two keysyms.
pub fn pick_keysym(lower: u32, upper: u32, lower_is_letter: bool, state: u16) -> (r: u32)
    ensures
        r == chosen_keysym(lower, upper, lower_is_letter, state),
{
    let shift = state & SHIFT != 0;
    if is_keypad(upper) && state & MOD2 != 0 {
        return if shift {
            lower
        } else {
            upper
        };
    }
    let caps = state & LOCK != 0 && lower_is_letter;
    if shift != caps {
        upper
    } else {
        lower
    }
}

fn is_keypad(ks: u32) -> (r: bool)
    ensures
        r == keypad(ks),
{
    0xff80 <= ks && ks <= 0xffbd
}

fn is_letter(ks: u32) -> (r: bool)
    ensures
        r == letter(ks),
{
    if ('a' as u32 <= ks && ks <= 'z' as u32) || (0xe0 <= ks && ks <= 0xfe && ks != 0xf7) {
        return true;
    }
    match keysym_char(ks) {
        Some(c) => text::is_lowercase(c),
        None => false,
    }
}

fn to_upper(ks: u32) -> (r: u32)
    ensures
        r == upper_keysym(ks),
{
    match keysym_char(ks) {
        Some(c) => recase_keysym(ks, text::is_lowercase(c), text::first_upper(c)),
        None => ks,
    }
}

/// The keysym of `upper` where the character of `ks` is a small letter.
pub fn recase_keysym(ks: u32, lowercase: bool, upper: char) -> (r: u32)
    ensures
        r == cased_keysym(ks, lowercase, upper),
{
    if lowercase {
        char_keysym(upper)
    } else {
        ks
    }
}

fn char_keysym(c: char) -> (r: u32)
    ensures
        r == keysym_of_char(c),
{
    let cp: u32 = c as u32;
    if (0x20 <= cp && cp <= 0x7e) || (0xa0 <= cp && cp <= 0xff) {
        cp
    } else {
        0x0100_0000 | cp
    }
}

/// The text character that a keysym stands for; control keys stand for none.
pub fn keysym_char(ks: u32) -> (r: Option<char>)
    ensures
        r == char_of_keysym(ks),
{
    if (0x20 <= ks && ks <= 0x7e) || (0xa0 <= ks && ks <= 0xff) {
        char::from_u32(ks)
    } else if 0x0100_0100 <= ks && ks <= 0x0110_ffff {
        char::from_u32(ks - 0x0100_0000)
    } else if 0xffb0 <= ks && ks <= 0xffb9 {
        char::from_u32('0' as u32 + (ks - 0xffb0))
    } else if ks == 0xffaa {
        Some('*')
    } else if ks == 0xffab {
        Some('+')
    } else if ks == 0xffad {
        Some('-')
    } else if ks == 0xffae {
        Some('.')
    } else if ks == 0xffaf {
        Some('/')
    } else if ks == 0xff80 {
        Some(' ')
    } else if 0x06a1 <= ks && ks <= 0x06ff {
        table_char(&CYRILLIC, ks - 0x06a1)
    } else if 0x07c1 <= ks && ks <= 0x07f9 {
        table_char(&GREEK, ks - 0x07c1)
    } else {
        None
    }
}

/// The entry `off` of a table in which `'\0'` marks an unassigned code.
fn table_char(table: &[char], off: u32) -> (r: Option<char>)
    ensures
        r == table_entry(table@, off as int),
{
    let i: usize = off as usize;
    if i < table.len() && table[i] != '\0' {
        Some(table[i])
    } else {
        None
    }
}

/// The named key of a keysym; the keypad's second keysyms count as the main block's.
pub open spec fn key_of_keysym(ks: u32) -> Option<Key> {
    match ks {
        0xff09 | 0xfe20 => Some(Key::Tab),
        0xff0d | 0xff8d => Some(Key::Enter),
        0xff1b => Some(Key::Escape),
        0x20 | 0xff80 => Some(Key::Space),
        0xff08 => Some(Key::Backspace),
        0xffff | 0xff9f => Some(Key::Delete),
        0xff51 | 0xff96 => Some(Key::Left),
        0xff53 | 0xff98 => Some(Key::Right),
        0xff52 | 0xff97 => Some(Key::Up),
        0xff54 | 0xff99 => Some(Key::Down),
        0xff50 | 0xff95 => Some(Key::Home),
        0xff57 | 0xff9c => Some(Key::End),
        0xff55 | 0xff9a => Some(Key::PageUp),
        0xff56 | 0xff9b => Some(Key::PageDown),
        0xff63 | 0xff9e => Some(Key::Insert),
        0xffab => Some(Key::NumpadAdd),
        0xffad => Some(Key::NumpadSubtract),
        0xffaa => Some(Key::NumpadMultiply),
        0xffaf => Some(Key::NumpadDivide),
        0xff67 => Some(Key::ContextMenu),
        0xffe9 | 0xffea => Some(Key::Alt),
        _ => if 0xffbe <= ks <= 0xffc9 {
            Some(Key::F((ks - 0xffbe + 1) as u8))
        } else {
            None
        },
    }
}

/// The named key of a keysym.
pub fn special_key(ks: u32) -> (r: Option<Key>)
    ensures
        r == key_of_keysym(ks),
{
    match ks {
        // The second one is what Shift+Tab sends.
        0xff09 | 0xfe20 => Some(Key::Tab),
        0xff0d | 0xff8d => Some(Key::Enter),
        0xff1b => Some(Key::Escape),
        0x20 | 0xff80 => Some(Key::Space),
        0xff08 => Some(Key::Backspace),
        0xffff | 0xff9f => Some(Key::Delete),
        0xff51 | 0xff96 => Some(Key::Left),
        0xff53 | 0xff98 => Some(Key::Right),
        0xff52 | 0xff97 => Some(Key::Up),
        0xff54 | 0xff99 => Some(Key::Down),
        0xff50 | 0xff95 => Some(Key::Home),
        0xff57 | 0xff9c => Some(Key::End),
        0xff55 | 0xff9a => Some(Key::PageUp),
        0xff56 | 0xff9b => Some(Key::PageDown),
        0xff63 | 0xff9e => Some(Key::Insert),
        0xffab => Some(Key::NumpadAdd),
        0xffad => Some(Key::NumpadSubtract),
        0xffaa => Some(Key::NumpadMultiply),
        0xffaf => Some(Key::NumpadDivide),
        0xff67 => Some(Key::ContextMenu),
        0xffe9 | 0xffea => Some(Key::Alt),
        _ => if 0xffbe <= ks && ks <= 0xffc9 {
            Some(Key::F((ks - 0xffbe + 1) as u8))
        } else {
            None
        },
    }
}

/// A pure modifier key, which makes no event of its own.
pub open spec fn modifier_keysym(ks: u32) -> bool {
    0xffe1 <= ks <= 0xffee || ks == 0xfe03
}

pub fn is_modifier(ks: u32) -> (r: bool)
    ensures
        r == modifier_keysym(ks),
{
    (0xffe1 <= ks && ks <= 0xffee) || ks == 0xfe03
}

/// The code by which a shortcut names a key: the ASCII capital or digit, which is also the
/// Windows virtual-key code.
pub open spec fn shortcut_of_keysym(ks: u32) -> Option<u32> {
    match char_of_keysym(ks) {
        Some(c) => if text::ascii_alnum(c) { Some(text::ascii_upper(c) as u32) } else { None },
        None => None,
    }
}

pub fn shortcut_code(base_ks: u32) -> (r: Option<u32>)
    ensures
        r == shortcut_of_keysym(base_ks),
{
    match keysym_char(base_ks) {
        Some(c) => if text::is_ascii_alnum(c) {
            Some(text::to_ascii_upper(c) as u32)
        } else {
            None
        },
        None => None,
    }
}

/// The bits of a state that choose between a key's keysyms, as arithmetic: Shift is the lowest,
/// Caps Lock the next, Num Lock the fifth.
proof fn state_bits(state: u16)
    ensures
        (state & SHIFT != 0) == (state % 2 == 1),
        (state & LOCK != 0) == (state / 2 % 2 == 1),
        (state & MOD2 != 0) == (state / 16 % 2 == 1),
{
    assert((state & 1 != 0) == (state % 2 == 1)) by (bit_vector);
    assert((state & 2 != 0) == (state / 2 % 2 == 1)) by (bit_vector);
    assert((state & 16 != 0) == (state / 16 % 2 == 1)) by (bit_vector);
}

/// Shift selects the second keysym of every key, letter or not: with neither Caps Lock nor Num
/// Lock on, a key of two columns gives the second with Shift and the first without. Without Shift
/// a key gives its first keysym whatever else it has.
pub proof fn shift_selects_the_second_keysym(km: KeymapView, keycode: u8, state: u16)
    requires
        state / 2 % 2 == 0,
        state / 16 % 2 == 0,
    ensures
        state % 2 == 1 && km.column(keycode, 1) != 0 ==> km.keysym(keycode, state) == km.column(
            keycode,
            1,
        ),
        state % 2 == 0 ==> km.keysym(keycode, state) == km.column(keycode, 0),
{
    state_bits(state);
}

/// Shift always makes a difference: with it and without it a key gives its two keysyms, one each,
/// under any locks.
pub proof fn shift_takes_the_other_keysym(lower: u32, upper: u32, letter: bool, s: u16, t: u16)
    requires
        s % 2 == 0,
        t == s + 1,
    ensures
        ({
            let a = chosen_keysym(lower, upper, letter, s);
            let b = chosen_keysym(lower, upper, letter, t);
            (a == lower && b == upper) || (a == upper && b == lower)
        }),
{
    state_bits(s);
    state_bits(t);
}

/// Caps Lock inverts Shift on letters, and changes nothing on other keys. The keypad under Num
/// Lock does not heed it.
pub proof fn caps_lock_acts_on_letters_only(lower: u32, upper: u32, letter: bool, s: u16, t: u16)
    requires
        s / 2 % 2 == 0,
        t == s + 2,
    ensures
        ({
            let off = chosen_keysym(lower, upper, letter, s);
            let on = chosen_keysym(lower, upper, letter, t);
            let numeric = 0xff80 <= upper <= 0xffbd && s / 16 % 2 == 1;
            &&& letter && !numeric ==> (off == lower && on == upper) || (off == upper && on == lower)
            &&& !letter || numeric ==> on == off
        }),
{
    state_bits(s);
    state_bits(t);
}

/// Num Lock turns the keypad to its second keysyms, which are digits, and Shift turns it back; it
/// changes nothing on other keys.
pub proof fn num_lock_acts_on_the_keypad_only(lower: u32, upper: u32, letter: bool, s: u16, t: u16)
    requires
        s / 16 % 2 == 0,
        t == s + 16,
    ensures
        0xff80 <= upper <= 0xffbd ==> chosen_keysym(lower, upper, letter, t) == (if s % 2 == 0 {
            upper
        } else {
            lower
        }),
        !(0xff80 <= upper <= 0xffbd) ==> chosen_keysym(lower, upper, letter, t) == chosen_keysym(
            lower,
            upper,
            letter,
            s,
        ),
{
    state_bits(s);
    state_bits(t);
}

/// Caps Lock acts on the small letters of Latin-1, and on no key whose character is not a small
/// letter, such as a digit.
pub proof fn small_letters_are_letters(ks: u32)
    ensures
        0x61 <= ks <= 0x7a || 0xe0 <= ks <= 0xf6 || 0xf8 <= ks <= 0xfe ==> letter(ks),
        (ks < 0x61 || 0x7a < ks < 0xe0 || ks == 0xf7 || ks > 0xfe) && (char_of_keysym(ks) matches Some(
            c,
        ) ==> !text::char_lowercase(c)) ==> !letter(ks),
{
}

/// A character is read back from its keysym, in Latin-1 and beyond; only control characters have
/// no keysym of their own.
pub proof fn characters_read_back(c: char)
    requires
        0x20 <= c as u32,
        !(0x7f <= c as u32 <= 0x9f),
    ensures
        char_of_keysym(keysym_of_char(c)) == Some(c),
        c as u32 <= 0xff ==> keysym_of_char(c) == c as u32,
{
    broadcast use char_is_scalar;

    let cp = c as u32;
    assert(is_scalar(cp));
    assert(cp <= 0x10ffff ==> 0x0100_0000u32 | cp == 0x0100_0000 + cp) by (bit_vector);
}

/// Different characters have different keysyms.
pub proof fn keysyms_of_characters_differ(a: char, b: char)
    requires
        0x20 <= a as u32 && !(0x7f <= a as u32 <= 0x9f),
        0x20 <= b as u32 && !(0x7f <= b as u32 <= 0x9f),
        keysym_of_char(a) == keysym_of_char(b),
    ensures
        a == b,
{
    characters_read_back(a);
    characters_read_back(b);
}

/// The keypad types the characters that its keys show: the digits in order, and the operators at
/// their ASCII values, since those keysyms are ASCII moved up.
pub proof fn the_keypad_types_what_it_shows(ks: u32)
    requires
        0xffb0 <= ks <= 0xffb9 || ks == 0xffaa || ks == 0xffab || 0xffad <= ks <= 0xffaf,
    ensures
        char_of_keysym(ks) is Some,
        char_of_keysym(ks).unwrap() as u32 == ks - 0xff80,
{
}

/// A keypad key without Num Lock is the same key as the one on the main block: the two rows of
/// keysyms run in the same order.
pub proof fn keypad_keys_are_main_keys(ks: u32)
    requires
        0xff95 <= ks <= 0xff9c,
    ensures
        key_of_keysym(ks) is Some,
        key_of_keysym(ks) == key_of_keysym((ks - 0x45) as u32),
        key_of_keysym(0xff8d) == key_of_keysym(0xff0d),
        key_of_keysym(0xff9e) == key_of_keysym(0xff63),
        key_of_keysym(0xff9f) == key_of_keysym(0xffff),
        key_of_keysym(0xff80) == key_of_keysym(0x20),
{
}

/// The keys of the main block are all different keys.
pub proof fn main_keys_differ(a: u32, b: u32)
    requires
        0xff00 <= a <= 0xff7f || 0xffbe <= a <= 0xffc9 || a == 0xffff || a == 0x20,
        0xff00 <= b <= 0xff7f || 0xffbe <= b <= 0xffc9 || b == 0xffff || b == 0x20,
        key_of_keysym(a) is Some,
        key_of_keysym(a) == key_of_keysym(b),
    ensures
        a == b,
{
}

/// The function keys run in order.
pub proof fn function_keys_run_in_order(n: u8)
    requires
        1 <= n <= 12,
    ensures
        key_of_keysym((0xffbd + n) as u32) == Some(Key::F(n)),
{
}

/// A key that types a printable character, other than the space, is no named key and no modifier.
pub proof fn printable_keys_have_no_name(ks: u32)
    requires
        0x21 <= ks <= 0x7e || 0xa0 <= ks <= 0xff || 0x0100_0100 <= ks,
    ensures
        key_of_keysym(ks) is None,
        !modifier_keysym(ks),
{
}

/// The modifier keys are those from Shift to Hyper, Alt among them, and the third-level shift; no
/// modifier types a character.
pub proof fn modifiers_do_not_type(ks: u32)
    requires
        modifier_keysym(ks),
    ensures
        char_of_keysym(ks) is None,
        key_of_keysym(ks) is Some ==> key_of_keysym(ks) == Some(Key::Alt),
        0xffe1 <= ks <= 0xffee || ks == 0xfe03,
{
}

/// Alt is the key left and right, and both are modifier keys.
pub proof fn both_alt_keys_are_alt(ks: u32)
    requires
        ks == 0xffe9 || ks == 0xffea,
    ensures
        key_of_keysym(ks) == Some(Key::Alt),
        modifier_keysym(ks),
{
}

/// A shortcut is named by the capital of its letter, whichever case the key shows, and by its
/// digit; nothing else has a code.
pub proof fn shortcuts_go_by_capitals(ks: u32)
    ensures
        0x61 <= ks <= 0x7a ==> shortcut_of_keysym(ks) == Some((ks - 0x20) as u32),
        0x41 <= ks <= 0x5a || 0x30 <= ks <= 0x39 ==> shortcut_of_keysym(ks) == Some(ks),
        shortcut_of_keysym(ks) matches Some(code) ==> 0x41 <= code <= 0x5a || 0x30 <= code <= 0x39,
        0x20 <= ks <= 0x2f || 0x3a <= ks <= 0x40 || 0x5b <= ks <= 0x60 || 0x7b <= ks <= 0xff
            ==> shortcut_of_keysym(ks) is None,
{
}

/// The first Latin letter or digit of a key is one of its keysyms, has a shortcut code, and none
/// before it has; a key without one shows none in any column.
pub proof fn the_first_latin_keysym_counts(km: KeymapView, keycode: u8, from: int)
    requires
        0 <= from,
    ensures
        match km.ascii_from(keycode, from) {
            Some(ks) => exists|c: int|
                from <= c < km.per && #[trigger] km.column(keycode, c) == ks && shortcut_of_keysym(ks)
                    is Some && forall|d: int|
                    from <= d < c ==> shortcut_of_keysym(#[trigger] km.column(keycode, d)) is None,
            None => forall|c: int|
                from <= c < km.per ==> shortcut_of_keysym(#[trigger] km.column(keycode, c)) is None,
        },
    decreases km.per - from,
{
    if from < km.per {
        if shortcut_of_keysym(km.column(keycode, from)) is None {
            the_first_latin_keysym_counts(km, keycode, from + 1);
        }
    }
}

/// The keyboard's table is read row by row: a table of whole rows gives for each key the keysyms
/// of its own row, and nothing for other keys and columns.
pub proof fn keys_read_their_own_row(km: KeymapView, row: Seq<u32>, i: int, c: int)
    requires
        row.len() == km.per,
        km.per > 0,
        km.syms.len() == i * km.per,
        0 <= i,
        km.min + i <= 255,
        0 <= c < km.per,
    ensures
        ({
            let more = KeymapView { syms: km.syms + row, ..km };
            &&& more.column((km.min + i) as u8, c) == row[c]
            &&& km.column((km.min + i) as u8, c) == 0
            &&& forall|k: u8, d: int| k < km.min + i ==> more.column(k, d) == #[trigger] km.column(k, d)
            &&& more.column((km.min + i) as u8, km.per as int) == 0
        }),
{
    let more = KeymapView { syms: km.syms + row, ..km };
    assert forall|k: u8, d: int| k < km.min + i implies more.column(k, d) == #[trigger] km.column(k, d) by {
        if k >= km.min && 0 <= d < km.per {
            assert((k - km.min) * km.per + d < i * km.per) by (nonlinear_arith)
                requires
                    k - km.min + 1 <= i,
                    d < km.per,
                    0 < km.per,
            ;
        }
    }
}

/// The row in which a keysym is found is the row of the key that is reported: one of that key's
/// columns shows it.
pub proof fn found_keys_show_the_keysym(km: KeymapView, i: int, ks: u32)
    requires
        0 <= i < km.rows(),
        km.min + i <= 255,
    ensures
        km.row_has(i, ks) == (exists|c: int|
            0 <= c < km.per && #[trigger] km.column((km.min + i) as u8, c) == ks),
{
    let per = km.per as int;
    let k = (km.min + i) as u8;
    assert((i + 1) * per <= km.syms.len() && i * per + per == (i + 1) * per && 0 <= i * per)
        by (nonlinear_arith)
        requires
            0 <= i < km.syms.len() as int / per,
            0 < per,
    ;
    let row = km.syms.subrange(i * per, (i + 1) * per);
    assert forall|c: int| 0 <= c < per implies #[trigger] km.column(k, c) == row[c] by {
        assert(i * per + c < km.syms.len());
    }
    if km.row_has(i, ks) {
        let c = choose|c: int| 0 <= c < row.len() && row[c] == ks;
        assert(km.column(k, c) == ks);
    } else if exists|c: int| 0 <= c < km.per && #[trigger] km.column(k, c) == ks {
        let c = choose|c: int| 0 <= c < km.per && #[trigger] km.column(k, c) == ks;
        assert(row[c] == ks);
    }
}

/// A key with one keysym types its character, and with Shift the capital of it where it is a
/// small letter; any other key of one keysym gives that with Shift too.
pub proof fn a_single_keysym_has_its_capital(km: KeymapView, keycode: u8, state: u16)
    requires
        state / 2 % 2 == 0,
        state / 16 % 2 == 0,
        km.column(keycode, 1) == 0,
    ensures
        ({
            let plain = km.column(keycode, 0);
            let got = km.keysym(keycode, state);
            &&& state % 2 == 0 ==> got == plain
            &&& char_of_keysym(plain) is None ==> got == plain
            &&& char_of_keysym(plain) matches Some(c) ==> {
                let u = text::char_upper(c)[0];
                &&& !text::char_lowercase(c) ==> got == plain
                &&& text::char_lowercase(c) && state % 2 == 1 && 0x20 <= u as u32 && !(0x7f <= u as u32
                    <= 0x9f) ==> char_of_keysym(got) == Some(u)
            }
        }),
{
    state_bits(state);
    if let Some(c) = char_of_keysym(km.column(keycode, 0)) {
        let u = text::char_upper(c)[0];
        if 0x20 <= u as u32 && !(0x7f <= u as u32 <= 0x9f) {
            characters_read_back(u);
        }
    }
}

/// The legacy Cyrillic letters stand in two runs in the same order, small letters first: each
/// capital lies as far before its small letter as in Unicode.
pub proof fn cyrillic_capitals_match(ks: u32)
    requires
        0x6c0 <= ks <= 0x6df,
    ensures
        char_of_keysym(ks) is Some && char_of_keysym((ks + 0x20) as u32) is Some,
        0x430 <= char_of_keysym(ks).unwrap() as u32 <= 0x44f,
        char_of_keysym((ks + 0x20) as u32).unwrap() as u32 + 0x20 == char_of_keysym(ks).unwrap() as u32,
{
    let i = ks - 0x6a1;
    assert(31 <= i <= 62);
}

/// The legacy Greek letters stand in two runs in the same order, capitals first: each small
/// letter lies as far behind its capital as in Unicode.
pub proof fn greek_small_letters_match(ks: u32)
    requires
        0x7c1 <= ks <= 0x7d9,
        ks != 0x7d3,
    ensures
        char_of_keysym(ks) is Some && char_of_keysym((ks + 0x20) as u32) is Some,
        0x391 <= char_of_keysym(ks).unwrap() as u32 <= 0x3a9,
        char_of_keysym((ks + 0x20) as u32).unwrap() as u32 == char_of_keysym(ks).unwrap() as u32 + 0x20,
{
    let i = ks - 0x7c1;
    assert(0 <= i <= 24);
}

/// A character that is not printable Latin-1 has its number in the Unicode block as its keysym.
pub proof fn other_characters_are_in_the_unicode_block(c: char)
    requires
        (c as u32) < 0x20 || 0x7f <= c as u32 <= 0x9f || c as u32 > 0xff,
    ensures
        keysym_of_char(c) == 0x100_0000 + c as u32,
{
    broadcast use char_is_scalar;

    let cp = c as u32;
    assert(is_scalar(cp));
    assert(cp <= 0x10ffff ==> 0x0100_0000u32 | cp == 0x0100_0000 + cp) by (bit_vector);
}

/// The legacy Cyrillic letters stand in the order of the Latin letters that they sound like, as far
/// as there are such.
pub proof fn cyrillic_letters_are_in_order(i: int)
    requires
        0 <= i < 32,
    ensures
        char_of_keysym((0x6c0 + i) as u32) matches Some(c) && c as u32 == seq![
            0x44eu32, 0x430, 0x431, 0x446, 0x434, 0x435, 0x444, 0x433, 0x445, 0x438, 0x439, 0x43a,
            0x43b, 0x43c, 0x43d, 0x43e, 0x43f, 0x44f, 0x440, 0x441, 0x442, 0x443, 0x436, 0x432,
            0x44c, 0x44b, 0x437, 0x448, 0x44d, 0x449, 0x447, 0x44a,
        ][i],
{
}

/// The legacy Greek capitals stand in the order of the alphabet, as in Unicode.
pub proof fn greek_capitals_are_in_order(ks: u32)
    requires
        0x7c1 <= ks <= 0x7d9,
        ks != 0x7d3,
    ensures
        char_of_keysym(ks) matches Some(c) && c as u32 == (if ks <= 0x7d1 {
            ks - 0x7c1 + 0x391
        } else if ks == 0x7d2 {
            0x3a3
        } else {
            ks - 0x7d4 + 0x3a4
        }),
{
    let i = ks - 0x7c1;
    assert(0 <= i <= 24);
}

} // verus!
