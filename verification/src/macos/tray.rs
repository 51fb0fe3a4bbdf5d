//! The status item: its clicks, its menu and its picture.

use vstd::prelude::*;

verus! {

/// What a click on the status item does.
#[derive(Clone, Copy, Debug, PartialEq, Eq, Structural)]
pub enum StatusClick {
    Menu,
    Click { double: bool },
}

/// What a click does: the right button and a click with Control open the menu; two clicks or more
/// are a double click.
pub fn status_click(right: bool, control: bool, clicks: i64) -> (r: StatusClick)
    ensures
        r == (if right || control {
            StatusClick::Menu
        } else {
            StatusClick::Click { double: clicks >= 2 }
        }),
{
    if right || control {
        StatusClick::Menu
    } else {
        StatusClick::Click { double: clicks >= 2 }
    }
}

/// The item that was chosen while the menu was open. The callback runs after the menu has closed.
#[derive(Clone, Copy, Debug, PartialEq, Eq, Structural)]
pub struct Pending {
    pub choice: Option<usize>,
}

impl Pending {
    /// The menu opens: nothing is chosen.
    pub fn opened() -> (r: Pending)
        ensures
            r.choice is None,
    {
        Pending { choice: None }
    }

    /// An item was chosen, by its tag; a negative tag is none of ours.
    pub fn menu_click(&mut self, tag: isize)
        ensures
            final(self).choice == (if tag >= 0 { Some(tag as usize) } else { None }),
    {
        self.choice = if tag >= 0 { Some(tag as usize) } else { None };
    }

    /// The menu closed: the choice, once.
    pub fn take_choice(&mut self) -> (r: Option<usize>)
        ensures
            r == old(self).choice,
            final(self).choice is None,
    {
        let c = self.choice;
        self.choice = None;
        c
    }
}

/// A colour byte multiplied by its pixel's alpha.
pub open spec fn scaled(v: u8, a: u8) -> u8 {
    (v * a / 255) as u8
}

/// Byte `i` of a picture with its colours multiplied by alpha.
pub open spec fn premultiplied(rgba: Seq<u8>, i: int) -> u8 {
    let a = rgba[i / 4 * 4 + 3];
    if i % 4 == 3 { a } else { scaled(rgba[i], a) }
}

fn scale(v: u8, a: u8) -> (r: u8)
    ensures
        r == scaled(v, a),
{
    assert(0 <= v * a <= 255 * 255) by (nonlinear_arith)
        requires
            0 <= v <= 255,
            0 <= a <= 255,
    ;
    (v as u32 * a as u32 / 255) as u8
}

/// The picture of the status item with its colours multiplied by alpha; none where the size is
/// not positive or the bytes are too few.
pub fn icon_pixels(w: i32, h: i32, rgba: &[u8]) -> (r: Option<Vec<u8>>)
    requires
        w > 0 && h > 0 ==> w * h * 4 <= i32::MAX,
    ensures
        (r is Some) == (w > 0 && h > 0 && rgba@.len() >= w * h * 4),
        r matches Some(v) ==> v@ == Seq::new(
            (w * h * 4) as nat,
            |i: int| premultiplied(rgba@, i),
        ),
{
    if w <= 0 || h <= 0 {
        return None;
    }
    assert(0 <= w * h) by (nonlinear_arith)
        requires
            w > 0,
            h > 0,
    ;
    let n: usize = (w * h) as usize;
    let len: usize = rgba.len();
    if len < n * 4 {
        return None;
    }
    let mut out: Vec<u8> = Vec::new();
    let mut i: usize = 0;
    while i < n
        invariant
            i <= n,
            n * 4 <= len,
            len == rgba@.len(),
            out@ == Seq::new((i * 4) as nat, |j: int| premultiplied(rgba@, j)),
        decreases n - i,
    {
        let s: usize = i * 4;
        let a: u8 = rgba[s + 3];
        out.push(scale(rgba[s], a));
        out.push(scale(rgba[s + 1], a));
        out.push(scale(rgba[s + 2], a));
        out.push(a);
        assert(out@ =~= Seq::new(((i + 1) * 4) as nat, |j: int| premultiplied(rgba@, j)));
        i += 1;
    }
    Some(out)
}

/// An opaque picture stays as it is, and a transparent pixel loses its colour.
pub proof fn opaque_pictures_stay(rgba: Seq<u8>, i: int)
    requires
        0 <= i < rgba.len(),
        rgba.len() % 4 == 0,
    ensures
        rgba[i / 4 * 4 + 3] == 255 ==> premultiplied(rgba, i) == rgba[i],
        rgba[i / 4 * 4 + 3] == 0 ==> premultiplied(rgba, i) == 0,
{
    let v = rgba[i];
    if i % 4 == 3 {
        assert(i == i / 4 * 4 + 3);
    }
    assert(v * 255 / 255 == v) by (nonlinear_arith)
        requires
            0 <= v <= 255,
    ;
    assert(v * 0 / 255 == 0) by (nonlinear_arith);
}

/// A colour multiplied by its alpha is their product in parts of 255, rounded down: never more than
/// either, all of the colour where the pixel is opaque, and none of it where it is clear.
pub proof fn colours_are_scaled_by_alpha(v: u8, a: u8)
    ensures
        scaled(v, a) <= v && scaled(v, a) <= a,
        255 * scaled(v, a) <= v * a < 255 * scaled(v, a) + 255,
        scaled(v, 255) == v && scaled(255, a) == a,
        scaled(v, 0) == 0 && scaled(0, a) == 0,
        scaled(v, a) == scaled(a, v),
{
    assert(v * a == a * v && 0 <= v * a <= 255 * v && v * a <= 255 * a) by (nonlinear_arith)
        requires
            0 <= v <= 255,
            0 <= a <= 255,
    ;
    assert(v * 255 / 255 == v && 255 * a / 255 == a) by (nonlinear_arith)
        requires
            0 <= v <= 255,
            0 <= a <= 255,
    ;
    assert(v * 0 == 0 && 0 * a == 0) by (nonlinear_arith);
}

/// Alpha stays as it is, and no colour is brighter than its alpha.
pub proof fn alpha_stays(rgba: Seq<u8>, i: int)
    requires
        0 <= i,
        4 * i + 3 < rgba.len(),
    ensures
        premultiplied(rgba, 4 * i + 3) == rgba[4 * i + 3],
        premultiplied(rgba, 4 * i) <= rgba[4 * i + 3],
        premultiplied(rgba, 4 * i + 1) <= rgba[4 * i + 3],
        premultiplied(rgba, 4 * i + 2) <= rgba[4 * i + 3],
        255 * premultiplied(rgba, 4 * i) <= rgba[4 * i] * rgba[4 * i + 3] < 255 * premultiplied(
            rgba,
            4 * i,
        ) + 255,
        255 * premultiplied(rgba, 4 * i + 1) <= rgba[4 * i + 1] * rgba[4 * i + 3] < 255
            * premultiplied(rgba, 4 * i + 1) + 255,
        255 * premultiplied(rgba, 4 * i + 2) <= rgba[4 * i + 2] * rgba[4 * i + 3] < 255
            * premultiplied(rgba, 4 * i + 2) + 255,
{
    let a = rgba[4 * i + 3];
    assert((4 * i) / 4 == i && (4 * i + 1) / 4 == i && (4 * i + 2) / 4 == i && (4 * i + 3) / 4 == i);
    assert((4 * i) % 4 == 0 && (4 * i + 1) % 4 == 1 && (4 * i + 2) % 4 == 2 && (4 * i + 3) % 4 == 3);
    colours_are_scaled_by_alpha(rgba[4 * i], a);
    colours_are_scaled_by_alpha(rgba[4 * i + 1], a);
    colours_are_scaled_by_alpha(rgba[4 * i + 2], a);
}

} // verus!
