//! Points, sizes and rectangles in physical pixels, and straight-alpha colours.

use vstd::prelude::*;

verus! {

/// The smaller of two integers.
pub open spec fn min_int(a: int, b: int) -> int {
    if a <= b { a } else { b }
}

/// The larger of two integers.
pub open spec fn max_int(a: int, b: int) -> int {
    if a >= b { a } else { b }
}

/// A position in physical pixels.
#[derive(Clone, Copy, Debug, PartialEq, Eq, Structural)]
pub struct Point {
    pub x: i32,
    pub y: i32,
}

impl Point {
    pub fn new(x: i32, y: i32) -> (r: Point)
        ensures
            r == (Point { x, y }),
    {
        Point { x, y }
    }
}

/// An extent in pixels.
#[derive(Clone, Copy, Debug, PartialEq, Eq, Structural)]
pub struct Size {
    pub w: i32,
    pub h: i32,
}

/// A colour with straight (not premultiplied) alpha.
#[derive(Clone, Copy, Debug, PartialEq, Eq, Structural)]
pub struct Color {
    pub r: u8,
    pub g: u8,
    pub b: u8,
    pub a: u8,
}

/// A rectangle `[x, x + w) x [y, y + h)`.
#[derive(Clone, Copy, Debug, PartialEq, Eq, Structural)]
pub struct Rect {
    pub x: i32,
    pub y: i32,
    pub w: i32,
    pub h: i32,
}

impl Rect {
    /// The right and bottom edges are representable.
    pub open spec fn in_range(self) -> bool {
        &&& i32::MIN <= self.x + self.w <= i32::MAX
        &&& i32::MIN <= self.y + self.h <= i32::MAX
    }

    /// The rectangle holds no pixel.
    pub open spec fn empty(self) -> bool {
        self.w <= 0 || self.h <= 0
    }

    /// Pixel `(px, py)` lies in the rectangle.
    pub open spec fn has(self, px: int, py: int) -> bool {
        &&& self.x <= px < self.x + self.w
        &&& self.y <= py < self.y + self.h
    }

    /// The common part of two rectangles; an empty one where they share no pixel.
    pub open spec fn meet(self, other: Rect) -> Rect {
        let x = max_int(self.x as int, other.x as int);
        let y = max_int(self.y as int, other.y as int);
        let right = min_int(self.x + self.w, other.x + other.w);
        let bottom = min_int(self.y + self.h, other.y + other.h);
        if right <= x || bottom <= y {
            Rect { x: x as i32, y: y as i32, w: 0, h: 0 }
        } else {
            Rect { x: x as i32, y: y as i32, w: (right - x) as i32, h: (bottom - y) as i32 }
        }
    }

    /// The smallest rectangle that covers both; an empty rectangle adds nothing.
    pub open spec fn join(self, other: Rect) -> Rect {
        if self.empty() {
            other
        } else if other.empty() {
            self
        } else {
            let x = min_int(self.x as int, other.x as int);
            let y = min_int(self.y as int, other.y as int);
            let right = max_int(self.x + self.w, other.x + other.w);
            let bottom = max_int(self.y + self.h, other.y + other.h);
            Rect { x: x as i32, y: y as i32, w: (right - x) as i32, h: (bottom - y) as i32 }
        }
    }

    /// The sides of the smallest covering rectangle are representable.
    pub open spec fn joinable(self, other: Rect) -> bool {
        !self.empty() && !other.empty() ==> {
            &&& max_int(self.x + self.w, other.x + other.w) - min_int(
                self.x as int,
                other.x as int,
            ) <= i32::MAX
            &&& max_int(self.y + self.h, other.y + other.h) - min_int(
                self.y as int,
                other.y as int,
            ) <= i32::MAX
        }
    }

    pub fn new(x: i32, y: i32, w: i32, h: i32) -> (r: Rect)
        ensures
            r == (Rect { x, y, w, h }),
    {
        Rect { x, y, w, h }
    }

    pub fn is_empty(&self) -> (r: bool)
        ensures
            r == self.empty(),
    {
        self.w <= 0 || self.h <= 0
    }

    pub fn right(&self) -> (r: i32)
        requires
            self.in_range(),
        ensures
            r == self.x + self.w,
    {
        self.x + self.w
    }

    pub fn bottom(&self) -> (r: i32)
        requires
            self.in_range(),
        ensures
            r == self.y + self.h,
    {
        self.y + self.h
    }

    /// The common part of two rectangles.
    pub fn intersect(&self, other: &Rect) -> (r: Rect)
        requires
            self.in_range(),
            other.in_range(),
        ensures
            r == self.meet(*other),
            r.in_range(),
    {
        let x: i32 = if self.x >= other.x { self.x } else { other.x };
        let y: i32 = if self.y >= other.y { self.y } else { other.y };
        let right: i32 = if self.right() <= other.right() { self.right() } else { other.right() };
        let bottom: i32 = if self.bottom() <= other.bottom() {
            self.bottom()
        } else {
            other.bottom()
        };
        if right <= x || bottom <= y {
            return Rect { x, y, w: 0, h: 0 };
        }
        Rect { x, y, w: right - x, h: bottom - y }
    }

    /// The smallest rectangle that covers both.
    pub fn union(&self, other: &Rect) -> (r: Rect)
        requires
            self.in_range(),
            other.in_range(),
            self.joinable(*other),
        ensures
            r == self.join(*other),
            r.in_range(),
    {
        if self.is_empty() {
            return *other;
        }
        if other.is_empty() {
            return *self;
        }
        let x: i32 = if self.x <= other.x { self.x } else { other.x };
        let y: i32 = if self.y <= other.y { self.y } else { other.y };
        let right: i32 = if self.right() >= other.right() { self.right() } else { other.right() };
        let bottom: i32 = if self.bottom() >= other.bottom() {
            self.bottom()
        } else {
            other.bottom()
        };
        Rect { x, y, w: right - x, h: bottom - y }
    }
}

/// The common part holds exactly the pixels of both.
pub proof fn meet_is_the_common_part(a: Rect, b: Rect, px: int, py: int)
    requires
        a.in_range(),
        b.in_range(),
    ensures
        a.meet(b).has(px, py) <==> a.has(px, py) && b.has(px, py),
{
}

/// The covering rectangle holds the pixels of each.
pub proof fn join_covers_both(a: Rect, b: Rect, px: int, py: int)
    requires
        a.in_range(),
        b.in_range(),
        a.joinable(b),
        a.has(px, py) || b.has(px, py),
    ensures
        a.join(b).has(px, py),
{
}

/// A rectangle holds a pixel unless it is empty. It begins at its corner and reaches as far as
/// its width and height, and no further.
pub proof fn a_rectangle_is_its_pixels(a: Rect, px: int, py: int)
    ensures
        a.empty() ==> !a.has(px, py),
        !a.empty() ==> {
            &&& a.has(a.x as int, a.y as int)
            &&& a.has(a.x + a.w - 1, a.y + a.h - 1)
            &&& !a.has(a.x - 1, py) && !a.has(a.x + a.w, py)
            &&& !a.has(px, a.y - 1) && !a.has(px, a.y + a.h)
        },
        a.has(px, py) ==> 0 <= px - a.x < a.w && 0 <= py - a.y < a.h,
{
}

/// The common part does not depend on the order, and of a rectangle and itself it is the
/// rectangle.
pub proof fn meeting_has_no_order(a: Rect, b: Rect)
    requires
        a.in_range(),
        b.in_range(),
    ensures
        a.meet(b) == b.meet(a),
        !a.empty() ==> a.meet(a) == a,
        a.empty() || b.empty() ==> a.meet(b).empty(),
        a.meet(b).w >= 0 && a.meet(b).h >= 0,
{
}

/// The covering rectangle is the smallest: whatever covers both covers it. It does not depend on
/// the order, unless neither has a pixel.
pub proof fn join_is_the_smallest_cover(a: Rect, b: Rect, c: Rect, px: int, py: int)
    requires
        a.in_range(),
        b.in_range(),
        a.joinable(b),
        forall|x: int, y: int| #![trigger a.has(x, y)] a.has(x, y) ==> c.has(x, y),
        forall|x: int, y: int| #![trigger b.has(x, y)] b.has(x, y) ==> c.has(x, y),
        a.join(b).has(px, py),
    ensures
        c.has(px, py),
        a.join(b) == b.join(a),
        a.empty() ==> a.join(b) == b,
        b.empty() ==> a.join(b) == a,
{
    if !a.empty() {
        assert(a.has(a.x as int, a.y as int));
        assert(a.has(a.x + a.w - 1, a.y + a.h - 1));
    }
    if !b.empty() {
        assert(b.has(b.x as int, b.y as int));
        assert(b.has(b.x + b.w - 1, b.y + b.h - 1));
    }
}

} // verus!
