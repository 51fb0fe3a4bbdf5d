//! Keys and characters: virtual-key codes, UTF-16 units that arrive one by one, and text as
//! UTF-16.

use crate::event::{Key, KeyEvent};
use crate::text;
use vstd::prelude::*;
use vstd::utf8::*;

verus! {

/// The key of a virtual-key code; a code without a name keeps its number.
pub open spec fn key_of_vk(vk: u16) -> Key {
    match vk {
        0x09 => Key::Tab,
        0x0D => Key::Enter,
        0x1B => Key::Escape,
        0x20 => Key::Space,
        0x08 => Key::Backspace,
        0x2E => Key::Delete,
        0x25 => Key::Left,
        0x27 => Key::Right,
        0x26 => Key::Up,
        0x28 => Key::Down,
        0x24 => Key::Home,
        0x23 => Key::End,
        0x21 => Key::PageUp,
        0x22 => Key::PageDown,
        _ => Key::Other(vk as u32),
    }
}

pub fn map_vk(vk: u16) -> (r: Key)
    ensures
        r == key_of_vk(vk),
{
    match vk {
        0x09 => Key::Tab,
        0x0D => Key::Enter,
        0x1B => Key::Escape,
        0x20 => Key::Space,
        0x08 => Key::Backspace,
        0x2E => Key::Delete,
        0x25 => Key::Left,
        0x27 => Key::Right,
        0x26 => Key::Up,
        0x28 => Key::Down,
        0x24 => Key::Home,
        0x23 => Key::End,
        0x21 => Key::PageUp,
        0x22 => Key::PageDown,
        _ => Key::Other(vk as u32),
    }
}

/// No two virtual-key codes are the same key.
pub proof fn virtual_keys_are_distinct(a: u16, b: u16)
    requires
        key_of_vk(a) == key_of_vk(b),
    ensures
        a == b,
{
}

/// The first half of a surrogate pair.
pub open spec fn high_surrogate(unit: u16) -> bool {
    0xD800 <= unit <= 0xDBFF
}

/// The second half of a surrogate pair.
pub open spec fn low_surrogate(unit: u16) -> bool {
    0xDC00 <= unit <= 0xDFFF
}

/// The scalar value of a surrogate pair.
pub open spec fn pair_value(hi: u16, lo: u16) -> int {
    0x10000 + (hi - 0xD800) * 0x400 + (lo - 0xDC00)
}

/// What waits, and the character that is complete, after one more unit. A second first half
/// replaces one that waits; a second half alone is dropped; any other unit drops what waits.
pub open spec fn accumulated(pending: Option<u16>, unit: u16) -> (Option<u16>, Option<char>) {
    if high_surrogate(unit) {
        (Some(unit), None)
    } else if low_surrogate(unit) {
        match pending {
            Some(hi) => (None, Some(pair_value(hi, unit) as char)),
            None => (None, None),
        }
    } else {
        (None, Some(unit as char))
    }
}

/// What waits is a first half.
pub open spec fn pending_ok(pending: Option<u16>) -> bool {
    pending matches Some(hi) ==> high_surrogate(hi)
}

/// Takes one UTF-16 unit and gives the character that it completes.
pub fn accumulate_char(pending: &mut Option<u16>, unit: u16) -> (r: Option<char>)
    requires
        pending_ok(*old(pending)),
    ensures
        (*final(pending), r) == accumulated(*old(pending), unit),
        pending_ok(*final(pending)),
{
    if 0xD800 <= unit && unit <= 0xDBFF {
        *pending = Some(unit);
        return None;
    }
    let waiting = *pending;
    *pending = None;
    if 0xDC00 <= unit && unit <= 0xDFFF {
        return match waiting {
            Some(hi) => char::from_u32(
                0x10000 + (hi as u32 - 0xD800) * 0x400 + (unit as u32 - 0xDC00),
            ),
            None => None,
        };
    }
    char::from_u32(unit as u32)
}

/// The event of a typed character: none for a control character, which the key messages report.
pub open spec fn typed(c: Option<char>) -> Option<KeyEvent> {
    match c {
        Some(ch) => if text::control(ch) {
            None
        } else {
            Some(
                KeyEvent {
                    key: Key::Char(ch),
                    pressed: true,
                    shift: false,
                    ctrl: false,
                    alt: false,
                    meta: false,
                },
            )
        },
        None => None,
    }
}

/// The event of a character message.
pub fn char_event(c: Option<char>) -> (r: Option<KeyEvent>)
    ensures
        r == typed(c),
{
    match c {
        Some(ch) => if text::is_control(ch) {
            None
        } else {
            Some(
                KeyEvent {
                    key: Key::Char(ch),
                    pressed: true,
                    shift: false,
                    ctrl: false,
                    alt: false,
                    meta: false,
                },
            )
        },
        None => None,
    }
}

/// The UTF-16 units of a character: one, or a surrogate pair.
pub open spec fn units_of(c: char) -> Seq<u16> {
    let cp = c as u32;
    if cp < 0x10000 {
        seq![cp as u16]
    } else {
        seq![
            (0xD800 + (cp - 0x10000) / 0x400) as u16,
            (0xDC00 + (cp - 0x10000) % 0x400) as u16,
        ]
    }
}

/// The UTF-16 units of a text.
pub open spec fn utf16(s: Seq<char>) -> Seq<u16>
    decreases s.len(),
{
    if s.len() == 0 {
        Seq::empty()
    } else {
        utf16(s.drop_last()) + units_of(s.last())
    }
}

/// Appends a text as UTF-16.
pub fn push_utf16(out: &mut Vec<u16>, s: &str)
    ensures
        final(out)@ == old(out)@ + utf16(s@),
{
    let ghost all = s@;
    let ghost before = out@;
    assert(out@ =~= before + utf16(all.take(0)));
    for c in it: s.chars()
        invariant
            it.seq() == all,
            out@ == before + utf16(all.take(it.index() as int)),
    {
        let ghost mid = out@;
        let cp: u32 = c as u32;
        if cp < 0x10000 {
            out.push(cp as u16);
        } else {
            out.push((0xD800 + (cp - 0x10000) / 0x400) as u16);
            out.push((0xDC00 + (cp - 0x10000) % 0x400) as u16);
        }
        assert(out@ =~= mid + units_of(c));
        assert(all.take(it.index() + 1).drop_last() =~= all.take(it.index() as int));
        assert(out@ =~= before + utf16(all.take(it.index() + 1)));
    }
    assert(all.take(all.len() as int) =~= all);
}

/// A text as UTF-16.
pub fn wide(s: &str) -> (r: Vec<u16>)
    ensures
        r@ == utf16(s@),
{
    let mut out: Vec<u16> = Vec::new();
    push_utf16(&mut out, s);
    assert(out@ =~= utf16(s@));
    out
}

/// A text as UTF-16 with a zero behind it.
pub fn wide_nul(s: &str) -> (r: Vec<u16>)
    ensures
        r@ == utf16(s@).push(0),
{
    let mut out = wide(s);
    out.push(0);
    out
}

/// The text of UTF-16 units; half a surrogate pair alone becomes the replacement character.
pub open spec fn decoded(u: Seq<u16>) -> Seq<char>
    decreases u.len(),
{
    if u.len() == 0 {
        Seq::empty()
    } else if high_surrogate(u[0]) && u.len() >= 2 && low_surrogate(u[1]) {
        seq![pair_value(u[0], u[1]) as char] + decoded(u.skip(2))
    } else if high_surrogate(u[0]) || low_surrogate(u[0]) {
        seq!['\u{fffd}'] + decoded(u.skip(1))
    } else {
        seq![u[0] as char] + decoded(u.skip(1))
    }
}

fn scalar(v: u32) -> (r: char)
    requires
        is_scalar(v),
    ensures
        r == v as char,
{
    match char::from_u32(v) {
        Some(c) => c,
        None => '\u{fffd}',
    }
}

/// Reads UTF-16 units as a text.
pub fn decode_wide(u: &[u16]) -> (r: String)
    ensures
        r@ == decoded(u@),
{
    let n: usize = u.len();
    let mut out = String::new();
    let mut i: usize = 0;
    assert(u@.skip(0) =~= u@);
    assert(out@ + decoded(u@) =~= decoded(u@));
    while i < n
        invariant
            i <= n,
            n == u@.len(),
            out@ + decoded(u@.skip(i as int)) == decoded(u@),
        decreases n - i,
    {
        let ghost rest = u@.skip(i as int);
        let ghost before = out@;
        assert(rest[0] == u@[i as int]);
        assert(rest.skip(1) =~= u@.skip(i + 1));
        let unit: u16 = u[i];
        if 0xD800 <= unit && unit <= 0xDBFF && n - i >= 2 && 0xDC00 <= u[i + 1] && u[i + 1]
            <= 0xDFFF {
            assert(rest[1] == u@[i + 1]);
            assert(rest.skip(2) =~= u@.skip(i + 2));
            let v: u32 = 0x10000 + (unit as u32 - 0xD800) * 0x400 + (u[i + 1] as u32 - 0xDC00);
            let c = scalar(v);
            out.push(c);
            i += 2;
            assert(out@ + decoded(u@.skip(i as int)) =~= before + decoded(rest));
        } else {
            let c = if 0xD800 <= unit && unit <= 0xDFFF {
                '\u{fffd}'
            } else {
                scalar(unit as u32)
            };
            out.push(c);
            i += 1;
            assert(out@ + decoded(u@.skip(i as int)) =~= before + decoded(rest));
        }
    }
    assert(out@ + decoded(u@.skip(i as int)) =~= out@);
    out
}

/// A text in a buffer of fixed length: as many units as leave room for the zero behind them;
/// what lies behind the zero stays.
pub open spec fn copied(dst: Seq<u16>, units: Seq<u16>) -> Seq<u16> {
    if dst.len() == 0 {
        dst
    } else {
        let n = if units.len() < dst.len() - 1 { units.len() as int } else { dst.len() - 1 };
        units.take(n).push(0) + dst.skip(n + 1)
    }
}

/// Writes a text into a buffer of fixed length, cut off to leave room for the zero behind it.
pub fn copy_wide(dst: &mut Vec<u16>, s: &str)
    ensures
        final(dst)@ == copied(old(dst)@, utf16(s@)),
{
    let n: usize = dst.len();
    if n == 0 {
        return;
    }
    let units = wide(s);
    let ghost before = dst@;
    let count: usize = if units.len() < n - 1 { units.len() } else { n - 1 };
    let mut i: usize = 0;
    while i < count
        invariant
            i <= count < n,
            n == before.len(),
            n == dst@.len(),
            count <= units@.len(),
            units@ == utf16(s@),
            forall|j: int| 0 <= j < i ==> #[trigger] dst@[j] == units@[j],
            forall|j: int| i <= j < n ==> #[trigger] dst@[j] == before[j],
        decreases count - i,
    {
        dst[i] = units[i];
        i += 1;
    }
    dst[count] = 0;
    assert(dst@ =~= copied(before, units@));
}

/// A character that is typed arrives whole: its units, taken one by one from nothing waiting,
/// give that character and leave nothing waiting.
pub proof fn typed_units_give_the_character(c: char)
    ensures
        ({
            let u = units_of(c);
            let (p1, c1) = accumulated(None, u[0]);
            if u.len() == 1 {
                c1 == Some(c) && p1 is None
            } else {
                let (p2, c2) = accumulated(p1, u[1]);
                u.len() == 2 && c1 is None && c2 == Some(c) && p2 is None
            }
        }),
{
    broadcast use char_is_scalar;

    let cp = c as u32;
    assert(is_scalar(cp));
    if cp >= 0x10000 {
        assert((cp - 0x10000) / 0x400 * 0x400 + (cp - 0x10000) % 0x400 == cp - 0x10000);
    }
}

/// UTF-16 of a text begins with the units of its first character.
proof fn utf16_from_the_front(s: Seq<char>)
    requires
        s.len() > 0,
    ensures
        utf16(s) == units_of(s[0]) + utf16(s.skip(1)),
    decreases s.len(),
{
    let before = s.drop_last();
    if s.len() > 1 {
        utf16_from_the_front(before);
        assert(s.skip(1).drop_last() =~= before.skip(1));
        assert(s.skip(1).last() == s.last());
        assert(utf16(s) =~= units_of(s[0]) + (utf16(before.skip(1)) + units_of(s.last())));
    } else {
        assert(before =~= Seq::empty());
        assert(s.skip(1) =~= Seq::empty());
        assert(utf16(s) =~= units_of(s[0]) + utf16(s.skip(1)));
    }
}

/// The units of a character read as that character, whatever follows them.
proof fn first_character_decoded(c: char, rest: Seq<u16>)
    ensures
        decoded(units_of(c) + rest) == seq![c] + decoded(rest),
{
    broadcast use char_is_scalar;

    let cp = c as u32;
    let u = units_of(c) + rest;
    assert(is_scalar(cp));
    if cp < 0x10000 {
        assert(u.skip(1) =~= rest);
    } else {
        assert((cp - 0x10000) / 0x400 * 0x400 + (cp - 0x10000) % 0x400 == cp - 0x10000);
        assert(u.skip(2) =~= rest);
    }
}

/// A text that is written as UTF-16 reads back as it was.
pub proof fn utf16_reads_back(s: Seq<char>)
    ensures
        decoded(utf16(s)) == s,
    decreases s.len(),
{
    if s.len() > 0 {
        utf16_from_the_front(s);
        utf16_reads_back(s.skip(1));
        first_character_decoded(s[0], utf16(s.skip(1)));
        assert(seq![s[0]] + s.skip(1) =~= s);
    } else {
        assert(s =~= Seq::empty());
    }
}

/// A text without a null character is UTF-16 without a zero, and has at least as many units as
/// characters.
pub proof fn utf16_has_no_zero(s: Seq<char>)
    requires
        !s.contains('\0'),
    ensures
        !utf16(s).contains(0u16),
        utf16(s).len() >= s.len(),
    decreases s.len(),
{
    if s.len() > 0 {
        let before = s.drop_last();
        assert(!before.contains('\0')) by {
            if before.contains('\0') {
                let k = choose|k: int| 0 <= k < before.len() && before[k] == '\0';
                assert(s[k] == '\0');
            }
        }
        utf16_has_no_zero(before);
        assert(s[s.len() - 1] != '\0');
        units_are_not_zero(s.last());
        let a = utf16(before);
        let b = units_of(s.last());
        assert forall|k: int| 0 <= k < (a + b).len() implies (a + b)[k] != 0 by {
            if k < a.len() {
                assert(a[k] != 0) by {
                    if a[k] == 0 {
                        assert(a.contains(0u16));
                    }
                }
            }
        }
    }
}

proof fn units_are_not_zero(c: char)
    requires
        c != '\0',
    ensures
        forall|k: int| 0 <= k < units_of(c).len() ==> #[trigger] units_of(c)[k] != 0,
        units_of(c).len() >= 1,
{
    broadcast use char_is_scalar;

    assert(is_scalar(c as u32));
}

/// A buffer that a text was written into ends the text with a zero, and keeps its length.
pub proof fn copied_text_is_terminated(dst: Seq<u16>, units: Seq<u16>)
    requires
        dst.len() > 0,
    ensures
        copied(dst, units).len() == dst.len(),
        units.len() < dst.len() ==> copied(dst, units).take(units.len() as int) == units && copied(
            dst,
            units,
        )[units.len() as int] == 0,
        units.len() >= dst.len() ==> copied(dst, units)[dst.len() - 1] == 0,
{
    if units.len() < dst.len() {
        assert(copied(dst, units).take(units.len() as int) =~= units);
    }
}

/// The keys that move the caret, in the order of their codes.
pub open spec fn moving_keys() -> Seq<Key> {
    seq![
        Key::PageUp,
        Key::PageDown,
        Key::End,
        Key::Home,
        Key::Left,
        Key::Up,
        Key::Right,
        Key::Down,
    ]
}

/// The codes of keys: the keys that move the caret have eight codes in a row, a key that types a
/// control character or the space has that character's code, and a letter, a digit or any other
/// key keeps its code.
pub proof fn codes_of_keys(code: u16)
    ensures
        0x21 <= code <= 0x28 ==> key_of_vk(code) == moving_keys()[code - 0x21],
        key_of_vk('\t' as u16) == Key::Tab,
        key_of_vk('\r' as u16) == Key::Enter,
        key_of_vk(' ' as u16) == Key::Space,
        key_of_vk('\u{8}' as u16) == Key::Backspace,
        key_of_vk('\u{1b}' as u16) == Key::Escape,
        key_of_vk('.' as u16) == Key::Delete,
        '0' as u16 <= code <= '9' as u16 || 'A' as u16 <= code <= 'Z' as u16 ==> key_of_vk(code)
            == Key::Other(code as u32),
        code > 0x2E ==> key_of_vk(code) == Key::Other(code as u32),
        key_of_vk(code) matches Key::Other(n) ==> n == code,
        key_of_vk(code) is Other || code <= 0x2E,
        !(key_of_vk(code) is Char) && !(key_of_vk(code) is F),
{
}

/// A pair counts up: its second half in steps of one, its first half in steps of 1024, from the
/// first character behind the basic ones to the last there is.
pub proof fn pairs_count_up(hi: u16, lo: u16)
    requires
        high_surrogate(hi),
        low_surrogate(lo),
    ensures
        0x1_0000 <= pair_value(hi, lo) <= 0x10_FFFF,
        pair_value(0xD800, 0xDC00) == 0x1_0000,
        pair_value(0xDBFF, 0xDFFF) == 0x10_FFFF,
        pair_value(hi, (lo + 1) as u16) == pair_value(hi, lo) + 1,
        pair_value((hi + 1) as u16, lo) == pair_value(hi, lo) + 1024,
        is_scalar(pair_value(hi, lo) as u32),
{
}

/// The halves are told apart, and neither is a character; every other unit is the character of its
/// number.
pub proof fn units_are_told_apart(unit: u16)
    ensures
        !(high_surrogate(unit) && low_surrogate(unit)),
        high_surrogate(unit) || low_surrogate(unit) <==> 0xD800 <= unit < 0xE000,
        high_surrogate(unit) ==> unit < 0xDC00,
        low_surrogate(unit) ==> unit >= 0xDC00,
        is_scalar(unit as u32) <==> !high_surrogate(unit) && !low_surrogate(unit),
        is_scalar(unit as u32) ==> accumulated(None, unit) == (None::<u16>, Some(unit as char)),
{
}

/// Half a pair alone types nothing: a second half without a first is dropped, and a first half is
/// dropped when anything but a second follows.
pub proof fn half_a_pair_types_nothing(pending: Option<u16>, unit: u16, next: u16)
    ensures
        low_surrogate(unit) ==> accumulated(None, unit) == (None::<u16>, None::<char>),
        high_surrogate(unit) ==> accumulated(pending, unit) == (Some(unit), None::<char>),
        high_surrogate(unit) && !low_surrogate(next) ==> accumulated(Some(unit), next)
            == accumulated(None, next),
        !high_surrogate(unit) ==> accumulated(pending, unit).0 is None,
{
}

/// What is typed is the character itself, pressed and without modifiers; a control character and
/// half a pair type nothing.
pub proof fn characters_are_typed(c: char)
    ensures
        (c as u32) < 0x20 || 0x7f <= (c as u32) <= 0x9f <==> typed(Some(c)) is None,
        typed(Some(c)) matches Some(ev) ==> ev.key == Key::Char(c) && ev.pressed && !ev.shift
            && !ev.ctrl && !ev.alt && !ev.meta,
        typed(None) is None,
{
}

/// A text that is longer than a buffer is cut off, and what fits is kept unit for unit.
pub proof fn copied_text_is_cut_off(dst: Seq<u16>, units: Seq<u16>, i: int)
    requires
        0 <= i < dst.len(),
    ensures
        copied(dst, units).len() == dst.len(),
        i < units.len() && i < dst.len() - 1 ==> copied(dst, units)[i] == units[i],
        i == units.len() || i == dst.len() - 1 && i <= units.len() ==> copied(dst, units)[i] == 0,
        i > units.len() ==> copied(dst, units)[i] == dst[i],
{
}

} // verus!
