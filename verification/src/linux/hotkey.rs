//! Global hot keys on X11: passive grabs on the root window.
//!
//! One combination is grabbed four times. The protocol counts Caps Lock and Num Lock among
//! the modifiers, so a grab of Ctrl+Alt+K alone does not match while Num Lock is on.

use super::keys::{self, Keymap};
use crate::event::{Hotkey, HotkeyCtx, HotkeyOp, Key, WindowOp};
use crate::hotkey::{self, Acquire, HotkeyBinding, HotkeySlots, Phase, SlotView, Step};
use crate::text;
use vstd::prelude::*;
use vstd::utf8::*;

verus! {

/// The lock modifiers that every grab also covers: none, Caps Lock, Num Lock, both.
pub const LOCK_VARIANTS: [u16; 4] = [0, keys::LOCK, keys::MOD2, keys::LOCK | keys::MOD2];

/// The grabbed key code and modifier mask of a hot key, without the lock modifiers.
pub type Grab = (u8, u16);

/// The hot keys of an X11 session.
pub struct Hotkeys<F> {
    pub inner: HotkeySlots<F, Grab>,
}

/// The modifier mask of a combination.
pub open spec fn combination_mask(hk: Hotkey) -> u16 {
    let shift = if hk.mods.shift { keys::SHIFT } else { 0u16 };
    let ctrl = if hk.mods.ctrl { keys::CONTROL } else { 0u16 };
    let alt = if hk.mods.alt { keys::MOD1 } else { 0u16 };
    let meta = if hk.mods.meta { keys::MOD4 } else { 0u16 };
    shift | ctrl | alt | meta
}

/// A modifier state without Caps Lock and Num Lock.
pub open spec fn without_locks(state: u16) -> u16 {
    state & !(keys::LOCK | keys::MOD2)
}

/// Slot `i` answers to this key code and modifier state.
pub open spec fn answers_to<F>(h: Hotkeys<F>, i: int, keycode: u8, state: u16) -> bool {
    let slot = h.inner.slots@[i];
    slot.enabled && slot.held == Some((keycode, without_locks(state)))
}

impl<F> Hotkeys<F> {
    /// One enabled slot per binding, in order, and the grabs to attempt.
    pub fn install(bindings: Vec<HotkeyBinding<F>>) -> (r: (Hotkeys<F>, Vec<Acquire>))
        ensures
            r.0.inner.model() == Seq::new(
                bindings@.len(),
                |i: int|
                    SlotView { hotkey: bindings@[i].hotkey, enabled: true, held: None::<Grab> },
            ),
            r.0.inner.callbacks() == Seq::new(bindings@.len(), |i: int| bindings@[i].callback),
            r.1@ == Seq::new(
                bindings@.len(),
                |i: int|
                    Acquire {
                        id: i as usize,
                        hotkey: bindings@[i].hotkey,
                        phase: Phase::Plain,
                    },
            ),
    {
        let (inner, plan) = HotkeySlots::install(bindings);
        (Hotkeys { inner }, plan)
    }

    /// Rebinds, enables or disables a slot.
    pub fn apply(&mut self, id: usize, op: HotkeyOp) -> (r: Step<Grab>)
        ensures
            (final(self).inner.model(), r) == hotkey::applied(
                old(self).inner.model(),
                id as int,
                op,
            ),
            final(self).inner.callbacks() == old(self).inner.callbacks(),
    {
        self.inner.apply(id, op)
    }

    /// Records the outcome of a grab.
    pub fn complete(&mut self, req: Acquire, got: Option<Grab>) -> (r: Option<Acquire>)
        requires
            req.id < old(self).inner.slots@.len(),
        ensures
            (final(self).inner.model(), r) == hotkey::completed(
                old(self).inner.model(),
                req,
                got,
            ),
            final(self).inner.callbacks() == old(self).inner.callbacks(),
    {
        self.inner.complete(req, got)
    }

    /// The keyboard mapping changed: every grab is given back, and the enabled slots are
    /// attempted anew.
    pub fn regrab_all(&mut self) -> (r: Vec<Step<Grab>>)
        ensures
            r@ == hotkey::regrab_steps(old(self).inner.model()),
            final(self).inner.model() == hotkey::released(old(self).inner.model()),
            final(self).inner.callbacks() == old(self).inner.callbacks(),
    {
        self.inner.regrab_all()
    }
}

impl<F: FnMut(&mut HotkeyCtx)> Hotkeys<F> {
    /// A key press on the root window. The first enabled slot that holds this grab runs its
    /// callback, and the intent that it declared comes back; where no slot does, nothing
    /// runs.
    pub fn dispatch(&mut self, keycode: u8, state: u16) -> (r: Option<Option<WindowOp>>)
        requires
            forall|i: int|
                0 <= i < old(self).inner.slots@.len() && #[trigger] answers_to(
                    *old(self),
                    i,
                    keycode,
                    state,
                ) ==> hotkey::runnable(old(self).inner.slots@[i].callback),
        ensures
            final(self).inner.model() == old(self).inner.model(),
            final(self).inner.callbacks() == old(self).inner.callbacks(),
            match r {
                None => *final(self) == *old(self) && forall|i: int|
                    0 <= i < old(self).inner.slots@.len() ==> !#[trigger] answers_to(
                        *old(self),
                        i,
                        keycode,
                        state,
                    ),
                Some(op) => exists|i: int, c: &mut HotkeyCtx|
                    0 <= i < old(self).inner.slots@.len() && #[trigger] answers_to(
                        *old(self),
                        i,
                        keycode,
                        state,
                    ) && (forall|j: int|
                        0 <= j < i ==> !#[trigger] answers_to(*old(self), j, keycode, state))
                        && #[trigger] call_ensures(old(self).inner.slots@[i].callback, (c,), ())
                        && c.op is None && op == final(c).op,
            },
    {
        let mods: u16 = state & !(keys::LOCK | keys::MOD2);
        let mut i: usize = 0;
        while i < self.inner.slots.len()
            invariant
                i <= self.inner.slots@.len(),
                *self == *old(self),
                mods == without_locks(state),
                forall|j: int|
                    0 <= j < old(self).inner.slots@.len() && #[trigger] answers_to(
                        *old(self),
                        j,
                        keycode,
                        state,
                    ) ==> hotkey::runnable(old(self).inner.slots@[j].callback),
                forall|j: int| 0 <= j < i ==> !#[trigger] answers_to(*old(self), j, keycode, state),
            decreases self.inner.slots@.len() - i,
        {
            if self.inner.slots[i].enabled {
                if let Some(g) = self.inner.slots[i].held {
                    if g.0 == keycode && g.1 == mods {
                        assert(answers_to(*old(self), i as int, keycode, state));
                        return Some(self.inner.fire(i));
                    }
                }
            }
            i += 1;
        }
        None
    }
}

/// The modifier mask of a combination.
pub fn mask_of(hk: Hotkey) -> (r: u16)
    ensures
        r == combination_mask(hk),
{
    let shift: u16 = if hk.mods.shift { keys::SHIFT } else { 0 };
    let ctrl: u16 = if hk.mods.ctrl { keys::CONTROL } else { 0 };
    let alt: u16 = if hk.mods.alt { keys::MOD1 } else { 0 };
    let meta: u16 = if hk.mods.meta { keys::MOD4 } else { 0 };
    shift | ctrl | alt | meta
}

/// A grab in progress: the variants before `next` are granted.
#[derive(Clone, Copy, Debug, PartialEq, Eq, Structural)]
pub struct GrabAttempt {
    pub keycode: u8,
    pub mods: u16,
    pub next: usize,
}

/// What follows a server's answer to one variant.
pub enum GrabStep {
    /// Ask for the next variant.
    More(GrabAttempt),
    /// All four are granted.
    Held(Grab),
    /// One was refused: these variants are to be given back, and the hot key is not held.
    GiveBack(Vec<Grab>),
}

/// The key code and full mask of variant `i` of a grab.
pub open spec fn variant(keycode: u8, mods: u16, i: int) -> Grab {
    (keycode, mods | LOCK_VARIANTS@[i])
}

/// The first `n` variants of a grab.
pub open spec fn variants(keycode: u8, mods: u16, n: int) -> Seq<Grab> {
    Seq::new(n as nat, |i: int| variant(keycode, mods, i))
}

/// Starts the grab of a combination; a key without a keysym, or whose keysym is on no key of
/// the mapping, cannot be grabbed.
pub fn begin_grab(keymap: &Keymap, hk: Hotkey) -> (r: Option<GrabAttempt>)
    ensures
        match r {
            Some(a) => {
                &&& keysym_of_key(hk.key) is Some
                &&& exists|i: int|
                    0 <= i < keymap@.rows() && #[trigger] keymap@.row_has(
                        i,
                        keysym_of_key(hk.key).unwrap(),
                    ) && a.keycode == (keymap@.min + i) % 256 && forall|j: int|
                        0 <= j < i ==> !#[trigger] keymap@.row_has(
                            j,
                            keysym_of_key(hk.key).unwrap(),
                        )
                &&& a.mods == combination_mask(hk)
                &&& a.next == 0
            },
            None => match keysym_of_key(hk.key) {
                Some(ks) => forall|j: int|
                    0 <= j < keymap@.rows() ==> !#[trigger] keymap@.row_has(j, ks),
                None => true,
            },
        },
{
    match keysym_of(hk.key) {
        Some(ks) => match keymap.keycode_of(ks) {
            Some(keycode) => Some(GrabAttempt { keycode, mods: mask_of(hk), next: 0 }),
            None => None,
        },
        None => None,
    }
}

impl GrabAttempt {
    /// The key code and mask to ask the server for now.
    pub fn request(&self) -> (r: Grab)
        requires
            self.next < 4,
        ensures
            r == variant(self.keycode, self.mods, self.next as int),
    {
        (self.keycode, self.mods | LOCK_VARIANTS[self.next])
    }

    /// Takes the server's answer to the current request.
    pub fn answer(self, granted: bool) -> (r: GrabStep)
        requires
            self.next < 4,
        ensures
            match r {
                GrabStep::More(a) => granted && self.next < 3 && a == (GrabAttempt {
                    next: (self.next + 1) as usize,
                    ..self
                }),
                GrabStep::Held(g) => granted && self.next == 3 && g == (self.keycode, self.mods),
                GrabStep::GiveBack(v) => !granted && v@ == variants(
                    self.keycode,
                    self.mods,
                    self.next as int,
                ),
            },
    {
        if !granted {
            return GrabStep::GiveBack(masks(self.keycode, self.mods, self.next));
        }
        if self.next == 3 {
            GrabStep::Held((self.keycode, self.mods))
        } else {
            GrabStep::More(
                GrabAttempt { keycode: self.keycode, mods: self.mods, next: self.next + 1 },
            )
        }
    }
}

fn masks(keycode: u8, mods: u16, n: usize) -> (r: Vec<Grab>)
    requires
        n <= 4,
    ensures
        r@ == variants(keycode, mods, n as int),
{
    let mut out: Vec<Grab> = Vec::new();
    let mut i: usize = 0;
    while i < n
        invariant
            i <= n <= 4,
            out@ == variants(keycode, mods, i as int),
        decreases n - i,
    {
        out.push((keycode, mods | LOCK_VARIANTS[i]));
        i += 1;
    }
    out
}

/// The requests that give a held hot key back: all four variants.
pub fn ungrab(g: Grab) -> (r: Vec<Grab>)
    ensures
        r@ == variants(g.0, g.1, 4),
{
    masks(g.0, g.1, 4)
}

/// The keysym by which a key is registered. Letters go by their small letter, which is what
/// the first column of the mapping holds.
pub open spec fn keysym_of_key(key: Key) -> Option<u32> {
    match key {
        Key::Tab => Some(0xff09),
        Key::Enter => Some(0xff0d),
        Key::Escape => Some(0xff1b),
        Key::Space => Some(0x20),
        Key::Backspace => Some(0xff08),
        Key::Delete => Some(0xffff),
        Key::Left => Some(0xff51),
        Key::Right => Some(0xff53),
        Key::Up => Some(0xff52),
        Key::Down => Some(0xff54),
        Key::Home => Some(0xff50),
        Key::End => Some(0xff57),
        Key::PageUp => Some(0xff55),
        Key::PageDown => Some(0xff56),
        Key::Insert => Some(0xff63),
        Key::F(n) => if 1 <= n <= 12 { Some((0xffbe + n - 1) as u32) } else { None },
        Key::NumpadAdd => Some(0xffab),
        Key::NumpadSubtract => Some(0xffad),
        Key::NumpadMultiply => Some(0xffaa),
        Key::NumpadDivide => Some(0xffaf),
        Key::ContextMenu => Some(0xff67),
        Key::Char(c) => ascii_keysym_of(c),
        Key::Other(vk) => if is_scalar(vk) { ascii_keysym_of(vk as char) } else { None },
        Key::Alt => None,
    }
}

/// The keysym of a printable ASCII character, letters as small letters.
pub open spec fn ascii_keysym_of(c: char) -> Option<u32> {
    if text::ascii_alnum(c) {
        Some(text::ascii_lower(c) as u32)
    } else if text::ascii_graphic(c) {
        Some(c as u32)
    } else {
        None
    }
}

/// The keysym by which a key is registered.
pub fn keysym_of(key: Key) -> (r: Option<u32>)
    ensures
        r == keysym_of_key(key),
{
    match key {
        Key::Tab => Some(0xff09),
        Key::Enter => Some(0xff0d),
        Key::Escape => Some(0xff1b),
        Key::Space => Some(0x20),
        Key::Backspace => Some(0xff08),
        Key::Delete => Some(0xffff),
        Key::Left => Some(0xff51),
        Key::Right => Some(0xff53),
        Key::Up => Some(0xff52),
        Key::Down => Some(0xff54),
        Key::Home => Some(0xff50),
        Key::End => Some(0xff57),
        Key::PageUp => Some(0xff55),
        Key::PageDown => Some(0xff56),
        Key::Insert => Some(0xff63),
        Key::F(n) => if 1 <= n && n <= 12 {
            Some(0xffbe + n as u32 - 1)
        } else {
            None
        },
        Key::NumpadAdd => Some(0xffab),
        Key::NumpadSubtract => Some(0xffad),
        Key::NumpadMultiply => Some(0xffaa),
        Key::NumpadDivide => Some(0xffaf),
        Key::ContextMenu => Some(0xff67),
        Key::Char(c) => ascii_keysym(c),
        Key::Other(vk) => match char::from_u32(vk) {
            Some(c) => ascii_keysym(c),
            None => None,
        },
        Key::Alt => None,
    }
}

fn ascii_keysym(c: char) -> (r: Option<u32>)
    ensures
        r == ascii_keysym_of(c),
{
    if text::is_ascii_alnum(c) {
        Some(text::to_ascii_lower(c) as u32)
    } else if text::is_ascii_graphic(c) {
        Some(c as u32)
    } else {
        None
    }
}

/// Named keys come back: the keysym by which a named key is registered is read as that key.
pub proof fn named_keys_round_trip(key: Key)
    requires
        !(key is Char) && !(key is Other) && !(key is Alt),
        key matches Key::F(n) ==> 1 <= n <= 12,
    ensures
        keysym_of_key(key) is Some,
        keys::key_of_keysym(keysym_of_key(key).unwrap()) == Some(key),
{
}

/// A held combination is recognised whatever the lock keys are: each of the four grabbed masks
/// is the combination's own once the lock bits are taken off.
pub proof fn lock_keys_do_not_matter(hk: Hotkey, i: int)
    requires
        0 <= i < 4,
    ensures
        without_locks(variant(0, combination_mask(hk), i).1) == combination_mask(hk),
        without_locks(combination_mask(hk)) == combination_mask(hk),
{
    let lock = LOCK_VARIANTS@[i];
    let s = if hk.mods.shift { keys::SHIFT } else { 0u16 };
    let c = if hk.mods.ctrl { keys::CONTROL } else { 0u16 };
    let a = if hk.mods.alt { keys::MOD1 } else { 0u16 };
    let m = if hk.mods.meta { keys::MOD4 } else { 0u16 };
    assert(lock == 0 || lock == 2 || lock == 16 || lock == 2u16 | 16u16);
    assert(((s | c | a | m) | lock) & !(2u16 | 16u16) == s | c | a | m && (s | c | a | m) & !(2u16
        | 16u16) == s | c | a | m) by (bit_vector)
        requires
            s == 0 || s == 1,
            c == 0 || c == 4,
            a == 0 || a == 8,
            m == 0 || m == 64,
            lock == 0 || lock == 2 || lock == 16 || lock == 2u16 | 16u16,
    ;
}

/// The variants held after a whole grab, given the server's answers, and what came out.
pub open spec fn grab_run(keycode: u8, mods: u16, answers: Seq<bool>, next: int) -> (
    Set<Grab>,
    Option<Grab>,
)
    decreases 4 - next,
{
    let held = Set::new(|g: Grab| exists|i: int| 0 <= i < next && g == #[trigger] variant(keycode, mods, i));
    if next >= 4 {
        (held, Some((keycode, mods)))
    } else if answers[next] {
        grab_run(keycode, mods, answers, next + 1)
    } else {
        (held.difference(variants(keycode, mods, next).to_set()), None)
    }
}

/// A grab is all or nothing: whatever the server answers, afterwards either all four variants
/// are held and the hot key is registered, or none is and it is not.
pub proof fn grab_is_all_or_nothing(keycode: u8, mods: u16, answers: Seq<bool>, next: int)
    requires
        0 <= next <= 4,
        answers.len() == 4,
    ensures
        ({
            let (held, out) = grab_run(keycode, mods, answers, next);
            match out {
                Some(g) => g == (keycode, mods) && forall|i: int|
                    0 <= i < 4 ==> held.contains(#[trigger] variant(keycode, mods, i)),
                None => held == Set::<Grab>::empty(),
            }
        }),
    decreases 4 - next,
{
    if next < 4 {
        if answers[next] {
            grab_is_all_or_nothing(keycode, mods, answers, next + 1);
        } else {
            let held = Set::new(|g: Grab| exists|i: int| 0 <= i < next && g == #[trigger] variant(keycode, mods, i));
            let back = variants(keycode, mods, next);
            assert forall|g: Grab| held.contains(g) implies back.to_set().contains(g) by {
                let i = choose|i: int| 0 <= i < next && g == #[trigger] variant(keycode, mods, i);
                assert(back[i] == g);
            }
            assert(held.difference(back.to_set()) =~= Set::<Grab>::empty());
        }
    }
}

/// The modifiers of a combination's mask, read as a key event's state, are the combination's own.
pub proof fn masks_hold_the_modifiers(hk: Hotkey)
    ensures
        super::input::mods_in(combination_mask(hk)) == hk.mods,
        combination_mask(hk) % 2 == (if hk.mods.shift { 1int } else { 0 }),
        combination_mask(hk) / 4 % 2 == (if hk.mods.ctrl { 1int } else { 0 }),
        combination_mask(hk) / 8 % 2 == (if hk.mods.alt { 1int } else { 0 }),
        combination_mask(hk) / 64 % 2 == (if hk.mods.meta { 1int } else { 0 }),
{
    let s = if hk.mods.shift { 1u16 } else { 0u16 };
    let c = if hk.mods.ctrl { 4u16 } else { 0u16 };
    let a = if hk.mods.alt { 8u16 } else { 0u16 };
    let m = if hk.mods.meta { 64u16 } else { 0u16 };
    let mask = combination_mask(hk);
    assert(mask == s | c | a | m);
    assert((s | c | a | m) % 2 == s && (s | c | a | m) / 4 % 2 == c / 4 && (s | c | a | m) / 8 % 2 == a
        / 8 && (s | c | a | m) / 64 % 2 == m / 64) by (bit_vector)
        requires
            s == 0 || s == 1,
            c == 0 || c == 4,
            a == 0 || a == 8,
            m == 0 || m == 64,
    ;
    super::input::modifiers_are_bits(mask);
}

/// Combinations with different modifiers have different masks.
pub proof fn masks_differ(a: Hotkey, b: Hotkey)
    requires
        combination_mask(a) == combination_mask(b),
    ensures
        a.mods == b.mods,
{
    masks_hold_the_modifiers(a);
    masks_hold_the_modifiers(b);
}

/// A held combination answers to its key with exactly its own modifiers, whatever Caps Lock and
/// Num Lock are: to every state whose Shift, Ctrl, Alt and Super are the combination's and that
/// has no other bit but the locks', and to no state in which one of the four differs.
pub proof fn combinations_answer_to_their_modifiers(hk: Hotkey, state: u16)
    requires
        state < 128,
        state / 32 % 2 == 0,
    ensures
        (without_locks(state) == combination_mask(hk)) == (super::input::mods_in(state) == hk.mods),
{
    let mask = combination_mask(hk);
    masks_hold_the_modifiers(hk);
    super::input::modifiers_are_bits(state);
    super::input::modifiers_are_bits(without_locks(state));
    lock_keys_do_not_matter(hk, 0);
    let t = without_locks(state);
    assert(t == state & !(2u16 | 16u16));
    assert((state & !(2u16 | 16u16)) % 2 == state % 2 && (state & !(2u16 | 16u16)) / 4 % 2 == state / 4
        % 2 && (state & !(2u16 | 16u16)) / 8 % 2 == state / 8 % 2 && (state & !(2u16 | 16u16)) / 64 % 2
        == state / 64 % 2) by (bit_vector);
    if super::input::mods_in(state) == hk.mods {
        assert(mask == mask & !(2u16 | 16u16));
        small_mask(hk);
        assert(t == mask) by (bit_vector)
            requires
                t == state & !(2u16 | 16u16),
                mask == mask & !(2u16 | 16u16),
                state < 128,
                mask < 128,
                state / 32 % 2 == 0,
                mask / 32 % 2 == 0,
                state % 2 == mask % 2,
                state / 4 % 2 == mask / 4 % 2,
                state / 8 % 2 == mask / 8 % 2,
                state / 64 % 2 == mask / 64 % 2,
        ;
    }
}

proof fn small_mask(hk: Hotkey)
    ensures
        combination_mask(hk) < 128,
        combination_mask(hk) / 32 % 2 == 0,
{
    let s = if hk.mods.shift { 1u16 } else { 0u16 };
    let c = if hk.mods.ctrl { 4u16 } else { 0u16 };
    let a = if hk.mods.alt { 8u16 } else { 0u16 };
    let m = if hk.mods.meta { 64u16 } else { 0u16 };
    assert(combination_mask(hk) == s | c | a | m);
    assert((s | c | a | m) < 128 && (s | c | a | m) / 32 % 2 == 0) by (bit_vector)
        requires
            s == 0 || s == 1,
            c == 0 || c == 4,
            a == 0 || a == 8,
            m == 0 || m == 64,
    ;
}

/// The four grabs of a combination are its mask with no lock, with Caps Lock, with Num Lock and
/// with both: four different masks, all of the same key.
pub proof fn every_lock_is_grabbed(keycode: u8, hk: Hotkey, state: u16)
    requires
        without_locks(state) == combination_mask(hk),
    ensures
        exists|i: int| 0 <= i < 4 && #[trigger] variant(keycode, combination_mask(hk), i) == (keycode, state),
{
    let mask = combination_mask(hk);
    let locks = state & (2u16 | 16u16);
    assert(locks == 0 || locks == 2 || locks == 16 || locks == 2u16 | 16u16) by (bit_vector)
        requires
            locks == state & (2u16 | 16u16),
    ;
    assert(mask | locks == state) by (bit_vector)
        requires
            locks == state & (2u16 | 16u16),
            mask == state & !(2u16 | 16u16),
    ;
    let i = if locks == 0 {
        0int
    } else if locks == 2 {
        1
    } else if locks == 16 {
        2
    } else {
        3
    };
    assert(LOCK_VARIANTS@[i] == locks);
    assert(variant(keycode, mask, i) == (keycode, state));
}

/// A letter is registered by its small letter whichever case it is given in, and any other
/// printable character by itself; the character that the keysym stands for is the one asked for.
pub proof fn characters_are_registered(c: char)
    ensures
        'a' <= c <= 'z' ==> keysym_of_key(Key::Char(c)) == Some(c as u32),
        'A' <= c <= 'Z' ==> keysym_of_key(Key::Char(c)) == Some((c as u32 + 0x20) as u32),
        '!' <= c <= '~' && !('A' <= c <= 'Z') ==> (keysym_of_key(Key::Char(c)) matches Some(ks)
            && keys::char_of_keysym(ks) == Some(c)),
        !('!' <= c <= '~') ==> keysym_of_key(Key::Char(c)) is None,
        keysym_of_key(Key::Other(c as u32)) == keysym_of_key(Key::Char(c)),
{
    broadcast use char_is_scalar;

    assert(is_scalar(c as u32));
}

} // verus!
