//! The software renderer: one pixel buffer for a window, drawn in RGBA and shown in BGRA.

use crate::geometry::{self, Color, Rect};
use crate::surface;
use vstd::prelude::*;

verus! {

/// A rectangle lies within a buffer of this size.
pub open spec fn within(r: Rect, w: int, h: int) -> bool {
    &&& 0 <= r.x && 0 <= r.y && 0 <= r.w && 0 <= r.h
    &&& r.x + r.w <= w
    &&& r.y + r.h <= h
}

/// Swaps red and blue in a rectangle of a buffer `buf_w` pixels wide. The rest of the buffer has
/// been swapped before, and swapping it again would undo that.
pub fn swap_rb_rect(data: &mut [u8], buf_w: i32, r: Rect)
    requires
        0 <= buf_w,
        r.in_range(),
        0 <= r.x && 0 <= r.y && 0 <= r.w && 0 <= r.h,
        r.x + r.w <= buf_w,
        (r.y + r.h) * buf_w * 4 <= old(data)@.len(),
    ensures
        final(data)@ == surface::swap_rows(
            old(data)@,
            buf_w as int,
            r.x as int,
            r.w as int,
            r.y as int,
            r.h as int,
        ),
        final(data)@.len() == old(data)@.len(),
{
    let ghost before = data@;
    let len: usize = data.len();
    let stride: usize = buf_w as usize;
    let mut row: i32 = 0;
    while row < r.h
        invariant
            0 <= row <= r.h,
            r.in_range(),
            0 <= r.x && 0 <= r.y && 0 <= r.w,
            r.x + r.w <= buf_w,
            stride == buf_w,
            (r.y + r.h) * buf_w * 4 <= len,
            len == before.len(),
            len == data@.len(),
            data@ == surface::swap_rows(
                before,
                buf_w as int,
                r.x as int,
                r.w as int,
                r.y as int,
                row as int,
            ),
        decreases r.h - row,
    {
        let y: usize = (r.y + row) as usize;
        proof {
            surface::row_within(
                stride as int,
                r.x as int,
                r.w as int,
                y as int,
                r.y + r.h,
                len as int,
            );
            assert(0 <= y * stride && y * stride <= surface::offset(
                stride as int,
                r.x as int,
                y as int,
            )) by {
                assert(0 <= y * stride) by (nonlinear_arith);
            }
            surface::swap_run_len(
                data@,
                surface::offset(stride as int, r.x as int, y as int),
                r.w as int,
            );
        }
        surface::swap_range(data, (y * stride + r.x as usize) * 4, r.w as usize);
        row += 1;
    }
}

/// The buffer of a window.
pub struct SkiaBackend {
    pub pixmap: Option<tiny_skia::Pixmap>,
    pub buf_w: i32,
    pub buf_h: i32,
    /// Nothing has been drawn into the buffer yet.
    pub fresh: bool,
}

/// A length of at least one.
pub open spec fn at_least_one(n: i32) -> i32 {
    if n < 1 { 1 } else { n }
}

/// A number moved into `[0, top]`.
pub open spec fn clamped(n: int, top: int) -> int {
    if n < 0 {
        0
    } else if n > top {
        top
    } else {
        n
    }
}

/// The rows that were drawn: all of them, or those of the rectangle.
pub open spec fn drawn_rows(drawn: Option<Rect>, h: int) -> (int, int) {
    match drawn {
        None => (0, h),
        Some(d) => (clamped(d.y as int, h), clamped(d.y + d.h, h)),
    }
}

/// The rows to show: those that were drawn and those that the system asks for.
pub open spec fn shown_rows(drawn: Option<Rect>, top: i32, bottom: i32, h: int) -> (int, int) {
    let (d0, d1) = drawn_rows(drawn, h);
    let p0 = clamped(top as int, h);
    let p1 = clamped(bottom as int, h);
    if p1 > p0 {
        (geometry::min_int(d0, p0), geometry::max_int(d1, p1))
    } else {
        (d0, d1)
    }
}

fn clamp(n: i32, top: i32) -> (r: i32)
    requires
        0 <= top,
    ensures
        r == clamped(n as int, top as int),
{
    if n < 0 {
        0
    } else if n > top {
        top
    } else {
        n
    }
}

impl SkiaBackend {
    /// The buffer has the size that is noted, and a missing buffer counts as fresh.
    pub open spec fn wf(self) -> bool {
        match self.pixmap {
            Some(p) => {
                &&& self.buf_w >= 1 && self.buf_h >= 1
                &&& surface::pixmap_width(p) == self.buf_w
                &&& surface::pixmap_height(p) == self.buf_h
                &&& surface::pixmap_bytes(p).len() == self.buf_w * self.buf_h * 4
            },
            None => self.fresh,
        }
    }

    /// The bytes of the buffer.
    pub open spec fn bytes(self) -> Seq<u8> {
        match self.pixmap {
            Some(p) => surface::pixmap_bytes(p),
            None => Seq::empty(),
        }
    }

    /// A buffer of this size is there.
    pub open spec fn has_size(self, w: i32, h: i32) -> bool {
        self.pixmap is Some && self.buf_w == w && self.buf_h == h
    }

    /// A buffer of this size can be made.
    pub open spec fn can_size(w: i32, h: i32) -> bool {
        at_least_one(w) * 4 <= i32::MAX && surface::addressable(
            at_least_one(w) as int,
            at_least_one(h) as int,
        )
    }

    pub fn new() -> (r: SkiaBackend)
        ensures
            r == (SkiaBackend { pixmap: None, buf_w: 0, buf_h: 0, fresh: true }),
            r.wf(),
    {
        SkiaBackend { pixmap: None, buf_w: 0, buf_h: 0, fresh: true }
    }

    /// Makes sure of a buffer of this size, at least one pixel each way. A new buffer is
    /// transparent black and fresh; a buffer that fits stays as it is.
    pub fn ensure(&mut self, w: i32, h: i32)
        requires
            old(self).wf(),
            SkiaBackend::can_size(w, h),
        ensures
            final(self).wf(),
            final(self).has_size(at_least_one(w), at_least_one(h)),
            old(self).has_size(at_least_one(w), at_least_one(h)) ==> *final(self) == *old(self),
            !old(self).has_size(at_least_one(w), at_least_one(h)) ==> {
                &&& final(self).fresh
                &&& final(self).bytes() == Seq::new(
                    (at_least_one(w) * at_least_one(h) * 4) as nat,
                    |i: int| 0u8,
                )
            },
    {
        let w: i32 = if w < 1 { 1 } else { w };
        let h: i32 = if h < 1 { 1 } else { h };
        if self.buf_w == w && self.buf_h == h && self.pixmap.is_some() {
            return;
        }
        self.pixmap = surface::new_pixmap(w as u32, h as u32);
        self.buf_w = w;
        self.buf_h = h;
        self.fresh = true;
    }

    /// Prepares a frame of the window's client area, and says whether there is anything to draw
    /// on. A fresh buffer is cleared to the background.
    pub fn begin(&mut self, w: i32, h: i32, bg: Color) -> (r: bool)
        requires
            old(self).wf(),
            SkiaBackend::can_size(w, h),
        ensures
            r == (w > 0 && h > 0),
            !r ==> *final(self) == *old(self),
            final(self).wf(),
            r ==> final(self).has_size(w, h),
            r && old(self).has_size(w, h) && !old(self).fresh ==> *final(self) == *old(self),
            r && (old(self).fresh || !old(self).has_size(w, h)) ==> {
                &&& final(self).fresh
                &&& final(self).bytes() == surface::one_colour((w * h * 4) as nat, bg)
            },
    {
        if w <= 0 || h <= 0 {
            return false;
        }
        self.ensure(w, h);
        if self.fresh {
            match &mut self.pixmap {
                Some(p) => {
                    surface::clear(p, bg);
                },
                None => {},
            }
        }
        true
    }

    /// What a frame drew: the part of the reported damage that lies in the buffer, or everything
    /// where the buffer was fresh or no damage was reported. The buffer is no longer fresh. Where
    /// everything was drawn, the whole window has to be shown again.
    pub fn drawn(&mut self, damage: Option<Rect>) -> (r: Option<Rect>)
        requires
            old(self).wf(),
            old(self).pixmap is Some,
            damage matches Some(d) ==> d.in_range(),
        ensures
            *final(self) == (SkiaBackend { fresh: false, ..*old(self) }),
            final(self).wf(),
            r == (match damage {
                Some(d) => if old(self).fresh {
                    None
                } else {
                    Some(
                        d.meet(Rect { x: 0, y: 0, w: old(self).buf_w, h: old(self).buf_h }),
                    )
                },
                None => None,
            }),
            r matches Some(d) ==> d.empty() || within(
                d,
                old(self).buf_w as int,
                old(self).buf_h as int,
            ),
            r matches Some(d) ==> d.in_range() && 0 <= d.w && 0 <= d.h,
    {
        let fresh = self.fresh;
        self.fresh = false;
        match damage {
            Some(d) => if fresh {
                None
            } else {
                Some(d.intersect(&Rect::new(0, 0, self.buf_w, self.buf_h)))
            },
            None => None,
        }
    }

    /// Turns what was drawn to the display's byte order, and returns the rows to show; nothing
    /// where there are none, and then nothing is turned. `top` and `bottom` are the rows that the
    /// system asks for.
    pub fn present(&mut self, drawn: Option<Rect>, top: i32, bottom: i32) -> (r: Option<(i32, i32)>)
        requires
            old(self).wf(),
            old(self).pixmap is Some,
            drawn matches Some(d) ==> d.in_range() && 0 <= d.w && 0 <= d.h && (d.empty() || within(
                d,
                old(self).buf_w as int,
                old(self).buf_h as int,
            )),
        ensures
            ({
                let (y0, y1) = shown_rows(drawn, top, bottom, old(self).buf_h as int);
                r == (if y0 < y1 { Some((y0 as i32, y1 as i32)) } else { None })
            }),
            r matches Some((y0, y1)) ==> 0 <= y0 < y1 <= old(self).buf_h,
            final(self).wf(),
            final(self).has_size(old(self).buf_w, old(self).buf_h),
            final(self).fresh == old(self).fresh,
            r is None ==> *final(self) == *old(self),
            r is Some && drawn is None ==> final(self).bytes() == surface::swap_run(
                old(self).bytes(),
                0,
                old(self).buf_w * old(self).buf_h,
            ),
            r is Some && drawn is Some ==> {
                let d = drawn.unwrap();
                final(self).bytes() == (if d.empty() {
                    old(self).bytes()
                } else {
                    surface::swap_rows(
                        old(self).bytes(),
                        old(self).buf_w as int,
                        d.x as int,
                        d.w as int,
                        d.y as int,
                        d.h as int,
                    )
                })
            },
    {
        let h: i32 = self.buf_h;
        let p0: i32 = clamp(top, h);
        let p1: i32 = clamp(bottom, h);
        let d0: i32 = match &drawn {
            Some(d) => clamp(d.y, h),
            None => 0,
        };
        let d1: i32 = match &drawn {
            Some(d) => clamp(d.bottom(), h),
            None => h,
        };
        let (y0, y1): (i32, i32) = if p1 > p0 {
            (if d0 < p0 { d0 } else { p0 }, if d1 > p1 { d1 } else { p1 })
        } else {
            (d0, d1)
        };
        if y0 >= y1 {
            return None;
        }
        let buf_w: i32 = self.buf_w;
        match &mut self.pixmap {
            Some(p) => {
                let data = surface::bytes_mut(p);
                match drawn {
                    Some(d) => if !d.is_empty() {
                        assert((d.y + d.h) * buf_w * 4 <= data@.len()) by {
                            assert((d.y + d.h) * buf_w <= h * buf_w) by (nonlinear_arith)
                                requires
                                    d.y + d.h <= h,
                                    0 <= buf_w,
                            ;
                            assert(h * buf_w == buf_w * h) by (nonlinear_arith);
                        }
                        swap_rb_rect(data, buf_w, d);
                    },
                    None => surface::swap_rb_inplace(data),
                }
            },
            None => {},
        }
        Some((y0, y1))
    }
}

/// The rows that were drawn are among those that are shown.
pub proof fn drawn_rows_are_shown(drawn: Option<Rect>, top: i32, bottom: i32, h: int, row: int)
    requires
        0 <= h,
        drawn_rows(drawn, h).0 <= row < drawn_rows(drawn, h).1,
    ensures
        shown_rows(drawn, top, bottom, h).0 <= row < shown_rows(drawn, top, bottom, h).1,
{
}

/// The rows that the system asks for are among those that are shown.
pub proof fn asked_rows_are_shown(drawn: Option<Rect>, top: i32, bottom: i32, h: int, row: int)
    requires
        0 <= h,
        0 <= row < h,
        top <= row < bottom,
    ensures
        shown_rows(drawn, top, bottom, h).0 <= row < shown_rows(drawn, top, bottom, h).1,
{
}

/// No row outside of the buffer is shown, and none that was neither drawn nor asked for, unless it
/// lies between the two.
pub proof fn shown_rows_are_in_the_buffer(
    drawn: Option<Rect>,
    top: i32,
    bottom: i32,
    h: int,
    row: int,
)
    requires
        0 <= h,
        shown_rows(drawn, top, bottom, h).0 <= row < shown_rows(drawn, top, bottom, h).1,
    ensures
        0 <= row < h,
        bottom <= top ==> (match drawn {
            Some(d) => d.y <= row < d.y + d.h,
            None => true,
        }),
        drawn is None ==> shown_rows(drawn, top, bottom, h) == (0int, h),
{
}

/// The rows that were drawn are those of the rectangle that lie in the buffer, and all of them
/// without one.
pub proof fn drawn_rows_are_the_rectangles(drawn: Option<Rect>, h: int, row: int)
    requires
        0 <= h,
    ensures
        drawn_rows(drawn, h).0 <= row < drawn_rows(drawn, h).1 <==> 0 <= row < h && (drawn matches Some(
            d,
        ) ==> d.y <= row < d.y + d.h),
{
}

/// A buffer has at least one pixel each way, and the size that was asked for where that is
/// positive.
pub proof fn buffers_are_not_empty(n: i32)
    ensures
        at_least_one(n) >= 1,
        n >= 1 ==> at_least_one(n) == n,
        n < 1 ==> at_least_one(n) == 1,
{
}

} // verus!
