//! The GPU renderer's bookkeeping: the device that windows share, recovery from its loss, the
//! stack of clips and layers, and the keys and limits of the caches.

use crate::geometry::{Color, Rect};
use std::collections::HashMap;
use vstd::prelude::*;
use vstd::std_specs::hash::*;

verus! {

/// After this many failed attempts in a row to make a device, the window is drawn in software.
pub const MAX_RECREATE_FAILS: u32 = 3;

pub const D2DERR_RECREATE_TARGET: u32 = 0x8899_000C;

pub const DXGI_ERROR_DEVICE_REMOVED: u32 = 0x887A_0005;

pub const DXGI_ERROR_DEVICE_RESET: u32 = 0x887A_0007;

/// The limits of the caches: laid-out texts, gradients, shadows and pictures.
pub const LAYOUT_LIMIT: usize = 512;

pub const GRADIENT_LIMIT: usize = 256;

pub const SHADOW_LIMIT: usize = 128;

pub const IMAGE_LIMIT: usize = 64;

/// The result codes that mean that the device is gone.
pub open spec fn means_lost(code: u32) -> bool {
    code == D2DERR_RECREATE_TARGET || code == DXGI_ERROR_DEVICE_REMOVED || code
        == DXGI_ERROR_DEVICE_RESET
}

pub fn is_device_lost(code: u32) -> (r: bool)
    ensures
        r == means_lost(code),
{
    code == D2DERR_RECREATE_TARGET || code == DXGI_ERROR_DEVICE_REMOVED || code
        == DXGI_ERROR_DEVICE_RESET
}

/// The device that all windows share, by its generation. Every device that is made has a
/// generation of its own.
#[derive(Clone, Copy, Debug, PartialEq, Eq, Structural)]
pub struct SharedDevice {
    pub current: Option<u64>,
    /// The last generation that was given out.
    pub last: u64,
}

impl SharedDevice {
    /// No device has a generation that was not given out.
    pub open spec fn wf(self) -> bool {
        self.current matches Some(g) ==> 1 <= g <= self.last
    }

    pub fn new() -> (r: SharedDevice)
        ensures
            r == (SharedDevice { current: None, last: 0 }),
            r.wf(),
    {
        SharedDevice { current: None, last: 0 }
    }

    /// The device that a window draws with: the shared one where there is one, and else one that
    /// has to be made.
    pub fn acquire(&self) -> (r: Option<u64>)
        ensures
            r == self.current,
    {
        self.current
    }

    /// A device was made: it is the shared one now, under a new generation.
    pub fn made(&mut self) -> (r: u64)
        requires
            old(self).wf(),
            old(self).last < u64::MAX,
        ensures
            r == old(self).last + 1,
            *final(self) == (SharedDevice { current: Some(r), last: r }),
            final(self).wf(),
    {
        let g: u64 = self.last + 1;
        self.last = g;
        self.current = Some(g);
        g
    }

    /// A window found that its device is gone. Only that device is given up: another window may
    /// have made a new one already.
    pub fn invalidate(&mut self, generation: u64)
        requires
            old(self).wf(),
        ensures
            *final(self) == old(self).without(generation),
            final(self).wf(),
    {
        if let Some(g) = self.current {
            if g == generation {
                self.current = None;
            }
        }
    }

    pub open spec fn without(self, generation: u64) -> SharedDevice {
        if self.current == Some(generation) {
            SharedDevice { current: None, ..self }
        } else {
            self
        }
    }

    /// Gives up the device at the end of the program.
    pub fn release(&mut self)
        requires
            old(self).wf(),
        ensures
            *final(self) == (SharedDevice { current: None, ..*old(self) }),
            final(self).wf(),
    {
        self.current = None;
    }
}

/// Where a text stands in the width that it has.
#[derive(Clone, Copy, Debug, PartialEq, Eq, Structural)]
pub enum Align {
    Start,
    Center,
    End,
    Stretch,
}

/// DirectWrite's names for it.
#[derive(Clone, Copy, Debug, PartialEq, Eq, Structural)]
pub enum TextAlignment {
    Leading,
    Center,
    Trailing,
}

/// How a line of text is aligned; one that is to stretch stands at the start.
pub fn text_alignment(align: Align) -> (r: TextAlignment)
    ensures
        r == (match align {
            Align::Start | Align::Stretch => TextAlignment::Leading,
            Align::Center => TextAlignment::Center,
            Align::End => TextAlignment::Trailing,
        }),
{
    match align {
        Align::Start => TextAlignment::Leading,
        Align::Stretch => TextAlignment::Leading,
        Align::Center => TextAlignment::Center,
        Align::End => TextAlignment::Trailing,
    }
}

/// Two windows that lose the same device make one new one: what the second gives up is the old
/// device, and the new one stays.
pub proof fn a_new_device_survives(s: SharedDevice, lost: u64)
    requires
        s.wf(),
        s.current == Some(lost),
        s.last < u64::MAX,
    ensures
        ({
            let first = s.without(lost);
            let remade = SharedDevice { current: Some((first.last + 1) as u64), last: (first.last + 1) as u64 };
            &&& first.current is None
            &&& remade.without(lost) == remade
        }),
{
}

/// A window's hold on the device.
#[derive(Clone, Copy, Debug, PartialEq, Eq, Structural)]
pub struct Recovery {
    pub generation: u64,
    pub lost: bool,
    /// Failed attempts in a row to make a new device.
    pub fails: u32,
}

/// What became of an attempt to paint with a device that is gone.
#[derive(Clone, Copy, Debug, PartialEq, Eq, Structural)]
pub enum Recovered {
    /// Paint: there is a device again.
    Paint,
    /// Try again with the next frame.
    Wait,
    /// Draw in software from now on.
    Downgrade,
}

impl Recovery {
    pub fn new(generation: u64) -> (r: Recovery)
        ensures
            r == (Recovery { generation, lost: false, fails: 0 }),
    {
        Recovery { generation, lost: false, fails: 0 }
    }

    /// A call of the device came back with this code. Says whether the device is gone.
    pub fn returned(&mut self, code: u32) -> (r: bool)
        ensures
            r == means_lost(code),
            *final(self) == (if r {
                Recovery { lost: true, ..*old(self) }
            } else {
                *old(self)
            }),
    {
        if is_device_lost(code) {
            self.lost = true;
            return true;
        }
        false
    }

    pub open spec fn attempted(self, made: Option<u64>) -> (Recovery, Recovered) {
        match made {
            Some(generation) => (
                Recovery { generation, lost: false, fails: 0 },
                Recovered::Paint,
            ),
            None => (
                Recovery { fails: (self.fails + 1) as u32, ..self },
                if self.fails + 1 >= MAX_RECREATE_FAILS {
                    Recovered::Downgrade
                } else {
                    Recovered::Wait
                },
            ),
        }
    }

    /// A new device was tried for: it was made with a generation, or it could not be made.
    pub fn try_recreate(&mut self, made: Option<u64>) -> (r: Recovered)
        requires
            old(self).fails < u32::MAX,
        ensures
            (*final(self), r) == old(self).attempted(made),
    {
        match made {
            Some(generation) => {
                *self = Recovery { generation, lost: false, fails: 0 };
                Recovered::Paint
            },
            None => {
                self.fails = self.fails + 1;
                if self.fails >= MAX_RECREATE_FAILS {
                    Recovered::Downgrade
                } else {
                    Recovered::Wait
                }
            },
        }
    }
}

/// A device that cannot be had three times in a row is given up at the third; one success in
/// between starts the count anew.
pub proof fn three_failures_give_up(s: Recovery, generation: u64)
    requires
        s.fails == 0,
    ensures
        ({
            let (s1, r1) = s.attempted(None);
            let (s2, r2) = s1.attempted(None);
            let (s3, r3) = s2.attempted(None);
            let (t3, q3) = s2.attempted(Some(generation));
            let (t4, q4) = t3.attempted(None);
            &&& r1 == Recovered::Wait && r2 == Recovered::Wait
            &&& r3 == Recovered::Downgrade
            &&& q3 == Recovered::Paint
            &&& q4 == Recovered::Wait
        }),
{
}

/// The clips and layers that are in force while a frame is drawn.
pub struct ClipStack {
    /// How many clips were in force at each save.
    pub saves: Vec<u32>,
    pub clips: u32,
    pub layers: u32,
}

impl ClipStack {
    /// No save knows of more clips than the next, and the last of no more than there are.
    pub open spec fn wf(self) -> bool {
        &&& forall|i: int, j: int|
            0 <= i <= j < self.saves@.len() ==> self.saves@[i] <= self.saves@[j]
        &&& self.saves@.len() > 0 ==> self.saves@.last() <= self.clips
    }

    pub fn new() -> (r: ClipStack)
        ensures
            r.wf(),
            r.saves@.len() == 0 && r.clips == 0 && r.layers == 0,
    {
        ClipStack { saves: Vec::new(), clips: 0, layers: 0 }
    }

    /// Remembers the clips that are in force.
    pub fn save(&mut self)
        requires
            old(self).wf(),
        ensures
            final(self).wf(),
            final(self).saves@ == old(self).saves@.push(old(self).clips),
            final(self).clips == old(self).clips,
            final(self).layers == old(self).layers,
    {
        self.saves.push(self.clips);
    }

    /// One more clip.
    pub fn clip_rect(&mut self)
        requires
            old(self).wf(),
            old(self).saves@.len() > 0,
            old(self).clips < u32::MAX,
        ensures
            final(self).wf(),
            final(self).saves@ == old(self).saves@,
            final(self).clips == old(self).clips + 1,
            final(self).layers == old(self).layers,
    {
        self.clips = self.clips + 1;
    }

    /// Goes back to the last save, and returns how many clips to take off. Without a save nothing
    /// happens.
    pub fn restore(&mut self) -> (r: u32)
        requires
            old(self).wf(),
        ensures
            final(self).wf(),
            final(self).layers == old(self).layers,
            old(self).saves@.len() == 0 ==> r == 0 && final(self).saves@ == old(self).saves@
                && final(self).clips == old(self).clips,
            old(self).saves@.len() > 0 ==> {
                &&& final(self).saves@ == old(self).saves@.drop_last()
                &&& final(self).clips == old(self).saves@.last()
                &&& r == old(self).clips - final(self).clips
            },
    {
        match self.saves.pop() {
            None => 0,
            Some(target) => {
                let off: u32 = self.clips - target;
                self.clips = target;
                off
            },
        }
    }

    pub fn push_layer(&mut self)
        requires
            old(self).wf(),
            old(self).layers < u32::MAX,
        ensures
            *final(self) == (ClipStack { layers: (old(self).layers + 1) as u32, ..*old(self) }),
            final(self).wf(),
    {
        self.layers = self.layers + 1;
    }

    /// Takes a layer off; says whether there was one.
    pub fn pop_layer(&mut self) -> (r: bool)
        requires
            old(self).wf(),
        ensures
            r == (old(self).layers > 0),
            *final(self) == (if r {
                ClipStack { layers: (old(self).layers - 1) as u32, ..*old(self) }
            } else {
                *old(self)
            }),
            final(self).wf(),
    {
        if self.layers > 0 {
            self.layers = self.layers - 1;
            return true;
        }
        false
    }

    /// The frame is over: what is left in force and has to be taken off, clips and layers.
    pub fn finish(self) -> (r: (u32, u32))
        ensures
            r == (self.clips, self.layers),
    {
        (self.clips, self.layers)
    }
}

/// A colour in one number: red, green, blue, alpha from the top byte down.
pub open spec fn packed(c: Color) -> int {
    c.r * 0x100_0000 + c.g * 0x1_0000 + c.b * 0x100 + c.a
}

pub fn rgba(c: Color) -> (r: u32)
    ensures
        r == packed(c),
{
    c.r as u32 * 0x100_0000 + c.g as u32 * 0x1_0000 + c.b as u32 * 0x100 + c.a as u32
}

/// Different colours have different numbers, so no cache mistakes one for another.
pub proof fn colours_are_told_apart(a: Color, b: Color)
    requires
        packed(a) == packed(b),
    ensures
        a == b,
{
    bytes_of_packed(a);
    bytes_of_packed(b);
}

/// The bytes of a colour's number.
proof fn bytes_of_packed(c: Color)
    ensures
        packed(c) % 0x100 == c.a,
        packed(c) / 0x100 % 0x100 == c.b,
        packed(c) / 0x1_0000 % 0x100 == c.g,
        packed(c) / 0x100_0000 == c.r,
{
    let n = packed(c);
    assert(n == (c.r * 0x1_0000 + c.g * 0x100 + c.b) * 0x100 + c.a);
    assert(n / 0x100 == (c.r * 0x100 + c.g) * 0x100 + c.b);
    assert(n / 0x1_0000 == c.r * 0x100 + c.g);
}

/// What was made for a key, so that it need not be made again. A cache that has grown past its
/// limit is emptied before the next entry goes in.
pub struct Cache<V> {
    pub entries: HashMap<u64, V>,
    pub limit: usize,
}

/// The entries after one more went in.
pub open spec fn inserted<V>(entries: Map<u64, V>, limit: int, key: u64, value: V) -> Map<u64, V> {
    if entries.len() > limit {
        Map::empty().insert(key, value)
    } else {
        entries.insert(key, value)
    }
}

impl<V> Cache<V> {
    /// There is never more than one entry above the limit.
    pub open spec fn wf(self) -> bool {
        &&& self.entries@.dom().finite()
        &&& self.entries@.len() <= self.limit + 1
    }

    pub fn new(limit: usize) -> (r: Cache<V>)
        ensures
            r.wf(),
            r.entries@ == Map::<u64, V>::empty(),
            r.limit == limit,
    {
        Cache { entries: HashMap::new(), limit }
    }

    /// What was made for a key.
    pub fn get(&self, key: u64) -> (r: Option<&V>)
        ensures
            r == (if self.entries@.dom().contains(key) { Some(&self.entries@[key]) } else { None }),
    {
        broadcast use group_hash_axioms;

        self.entries.get(&key)
    }

    /// Keeps what was made for a key.
    pub fn put(&mut self, key: u64, value: V)
        requires
            old(self).wf(),
        ensures
            final(self).wf(),
            final(self).entries@ == inserted(old(self).entries@, old(self).limit as int, key, value),
            final(self).limit == old(self).limit,
    {
        broadcast use group_hash_axioms;

        if self.entries.len() > self.limit {
            self.entries.clear();
        }
        self.entries.insert(key, value);
    }
}

/// What was just kept is found, and is the only thing that the cache did not have before.
pub proof fn kept_entries_are_found<V>(
    entries: Map<u64, V>,
    limit: int,
    key: u64,
    value: V,
    other: u64,
)
    requires
        other != key,
    ensures
        inserted(entries, limit, key, value).dom().contains(key),
        inserted(entries, limit, key, value)[key] == value,
        inserted(entries, limit, key, value).dom().contains(other) ==> entries.dom().contains(other)
            && inserted(entries, limit, key, value)[other] == entries[other],
{
}

/// How a picture is fitted into a rectangle.
#[derive(Clone, Copy, Debug, PartialEq, Eq, Structural)]
pub enum Fit {
    /// Stretched to the rectangle.
    Fill,
    /// As large as fits in the rectangle.
    Contain,
    /// As small as covers the rectangle.
    Cover,
    /// In its own size.
    Original,
}

/// A positive fraction.
#[derive(Clone, Copy, Debug, PartialEq, Eq, Structural)]
pub struct Ratio {
    pub num: u32,
    pub den: u32,
}

/// The factors by which a picture's width and height are multiplied.
#[derive(Clone, Copy, Debug, PartialEq, Eq, Structural)]
pub struct ImageScale {
    pub x: Ratio,
    pub y: Ratio,
}

/// The factors for a picture of `iw` by `ih` pixels in a rectangle of `dw` by `dh`. The picture
/// keeps its shape unless it is stretched.
pub open spec fn scale_of(fit: Fit, dw: u32, dh: u32, iw: u32, ih: u32) -> ImageScale {
    let wide = Ratio { num: dw, den: iw };
    let high = Ratio { num: dh, den: ih };
    match fit {
        Fit::Fill => ImageScale { x: wide, y: high },
        Fit::Contain => if dw * ih <= dh * iw {
            ImageScale { x: wide, y: wide }
        } else {
            ImageScale { x: high, y: high }
        },
        Fit::Cover => if dw * ih >= dh * iw {
            ImageScale { x: wide, y: wide }
        } else {
            ImageScale { x: high, y: high }
        },
        Fit::Original => ImageScale { x: Ratio { num: 1, den: 1 }, y: Ratio { num: 1, den: 1 } },
    }
}

/// How a picture is scaled into a rectangle; nothing is drawn where either is empty.
pub fn image_scale(fit: Fit, dst: Rect, iw: u32, ih: u32) -> (r: Option<ImageScale>)
    ensures
        r == (if dst.empty() || iw == 0 || ih == 0 {
            None
        } else {
            Some(scale_of(fit, dst.w as u32, dst.h as u32, iw, ih))
        }),
{
    if dst.is_empty() || iw == 0 || ih == 0 {
        return None;
    }
    let dw: u32 = dst.w as u32;
    let dh: u32 = dst.h as u32;
    let wide = Ratio { num: dw, den: iw };
    let high = Ratio { num: dh, den: ih };
    assert(0 <= dw * ih <= 0xFFFF_FFFF * 0xFFFF_FFFF) by (nonlinear_arith)
        requires
            0 <= dw <= 0xFFFF_FFFF,
            0 <= ih <= 0xFFFF_FFFF,
    ;
    assert(0 <= dh * iw <= 0xFFFF_FFFF * 0xFFFF_FFFF) by (nonlinear_arith)
        requires
            0 <= dh <= 0xFFFF_FFFF,
            0 <= iw <= 0xFFFF_FFFF,
    ;
    let a: u64 = dw as u64 * ih as u64;
    let b: u64 = dh as u64 * iw as u64;
    let scale = match fit {
        Fit::Fill => ImageScale { x: wide, y: high },
        Fit::Contain => if a <= b {
            ImageScale { x: wide, y: wide }
        } else {
            ImageScale { x: high, y: high }
        },
        Fit::Cover => if a >= b {
            ImageScale { x: wide, y: wide }
        } else {
            ImageScale { x: high, y: high }
        },
        Fit::Original => ImageScale { x: Ratio { num: 1, den: 1 }, y: Ratio { num: 1, den: 1 } },
    };
    Some(scale)
}

/// A contained picture lies within the rectangle and touches it on two opposite sides; one that
/// covers leaves none of the rectangle free and touches it likewise; a stretched one fills it.
pub proof fn pictures_fit(dw: u32, dh: u32, iw: u32, ih: u32)
    requires
        0 < iw && 0 < ih,
    ensures
        ({
            let s = scale_of(Fit::Contain, dw, dh, iw, ih);
            &&& s.x == s.y
            &&& iw * s.x.num <= dw * s.x.den
            &&& ih * s.y.num <= dh * s.y.den
            &&& iw * s.x.num == dw * s.x.den || ih * s.y.num == dh * s.y.den
        }),
        ({
            let s = scale_of(Fit::Cover, dw, dh, iw, ih);
            &&& s.x == s.y
            &&& iw * s.x.num >= dw * s.x.den
            &&& ih * s.y.num >= dh * s.y.den
            &&& iw * s.x.num == dw * s.x.den || ih * s.y.num == dh * s.y.den
        }),
        ({
            let s = scale_of(Fit::Fill, dw, dh, iw, ih);
            iw * s.x.num == dw * s.x.den && ih * s.y.num == dh * s.y.den
        }),
{
    assert(iw * dw == dw * iw) by (nonlinear_arith);
    assert(ih * dh == dh * ih) by (nonlinear_arith);
    assert(ih * dw == dw * ih) by (nonlinear_arith);
    assert(iw * dh == dh * iw) by (nonlinear_arith);
}

/// The colour can be read back from its number: red the highest byte, then green, blue and alpha.
pub proof fn colours_read_back(c: Color)
    ensures
        packed(c) / 0x100_0000 == c.r,
        packed(c) / 0x1_0000 % 0x100 == c.g,
        packed(c) / 0x100 % 0x100 == c.b,
        packed(c) % 0x100 == c.a,
        0 <= packed(c) <= 0xFFFF_FFFF,
{
    bytes_of_packed(c);
}

/// Only three codes mean that the device is gone, and all three are failures.
pub proof fn three_codes_mean_a_loss(code: u32)
    ensures
        means_lost(code) <==> code == 0x8899_000C || code == 0x887A_0005 || code == 0x887A_0007,
        means_lost(code) ==> code >= 0x8000_0000,
        !means_lost(0),
{
}

/// Giving up a device gives up that device alone, and the numbers that were given out are not
/// given out again.
pub proof fn only_the_lost_device_is_given_up(s: SharedDevice, lost: u64)
    requires
        s.wf(),
    ensures
        s.without(lost).wf(),
        s.without(lost).last == s.last,
        s.without(lost).current != Some(lost),
        s.current != Some(lost) ==> s.without(lost) == s,
        s.without(lost).without(lost) == s.without(lost),
{
}

/// An attempt counts as a failure or ends the count; the third failure in a row is the last.
pub proof fn attempts_are_counted(s: Recovery, generation: u64)
    requires
        s.fails < u32::MAX,
    ensures
        ({
            let (after, what) = s.attempted(None);
            &&& after.fails == s.fails + 1 && after.lost == s.lost && after.generation == s.generation
            &&& what is Downgrade <==> s.fails >= 2
            &&& what is Wait <==> s.fails < 2
        }),
        ({
            let (after, what) = s.attempted(Some(generation));
            after.generation == generation && !after.lost && after.fails == 0 && what is Paint
        }),
{
}

/// A cache that has not grown past its limit keeps what it has; one that has keeps only the new
/// entry. It never holds more than one above its limit.
pub proof fn caches_keep_to_their_limit<V>(
    entries: Map<u64, V>,
    limit: int,
    key: u64,
    value: V,
    other: u64,
)
    requires
        entries.dom().finite(),
        0 <= limit,
        entries.len() <= limit + 1,
        other != key,
    ensures
        entries.len() <= limit && entries.dom().contains(other) ==> inserted(
            entries,
            limit,
            key,
            value,
        ).dom().contains(other) && inserted(entries, limit, key, value)[other] == entries[other],
        entries.len() > limit ==> inserted(entries, limit, key, value).dom() == set![key],
        inserted(entries, limit, key, value).len() <= limit + 1,
{
    if entries.len() > limit {
        assert(inserted(entries, limit, key, value).dom() =~= set![key]);
    }
}

/// A picture in its own size is not scaled, and one of the rectangle's own size is not scaled in any
/// way of fitting it.
pub proof fn pictures_of_the_right_size_are_not_scaled(fit: Fit, w: u32, h: u32, dw: u32, dh: u32)
    requires
        0 < w,
        0 < h,
    ensures
        ({
            let s = scale_of(fit, w, h, w, h);
            s.x.num == s.x.den && s.y.num == s.y.den && s.x.den > 0 && s.y.den > 0
        }),
        ({
            let s = scale_of(Fit::Original, dw, dh, w, h);
            s.x.num == s.x.den && s.y.num == s.y.den
        }),
{
}

} // verus!
