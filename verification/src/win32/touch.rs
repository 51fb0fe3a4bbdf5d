//! One finger: a tap is a click, a drag scrolls, and letting go of a drag lets the content glide.

use crate::event::{MouseButton, PointerEvent, PointerKind};
use vstd::prelude::*;

verus! {

/// A finger that moved this far is scrolling.
pub const TOUCH_THRESHOLD: i32 = 12;

/// The finger.
#[derive(Clone, Copy, Debug, PartialEq, Eq, Structural)]
pub struct Touch {
    pub down: bool,
    pub start_x: i32,
    pub start_y: i32,
    pub last_x: i32,
    pub last_y: i32,
    pub scrolling: bool,
    pub last_t: u32,
}

#[derive(Clone, Copy, Debug, PartialEq, Eq, Structural)]
pub enum TouchKind {
    Down,
    Move,
    Up,
}

/// What a touch asks of the host.
#[derive(Clone, Copy, Debug, PartialEq, Eq, Structural)]
pub enum TouchAction {
    Nothing,
    /// Stop the content's glide and start a new velocity.
    Stop,
    /// The finger moved by `dy` in `dt` milliseconds, for the velocity; `dt` is positive or the
    /// velocity stays. Where `pan` is set the content scrolls by `dy`.
    Track { dy: i32, dt: i32, pan: bool },
    /// Let the content glide with the velocity so far.
    Fling,
    /// A click where the finger went down, released where it is.
    Tap { down: PointerEvent, up: PointerEvent },
}

/// Positions that a screen can have.
pub open spec fn on_screen(v: i32) -> bool {
    -0x4000_0000 <= v < 0x4000_0000
}

/// The finger has left the place where it went down.
pub open spec fn moved_away(t: Touch, x: i32, y: i32) -> bool {
    ||| x - t.start_x >= TOUCH_THRESHOLD
    ||| t.start_x - x >= TOUCH_THRESHOLD
    ||| y - t.start_y >= TOUCH_THRESHOLD
    ||| t.start_y - y >= TOUCH_THRESHOLD
}

/// Milliseconds between two times of a clock that wraps, negative where the second is earlier.
pub open spec fn elapsed(now: u32, then: u32) -> int {
    let d = if now >= then { now - then } else { now - then + 0x1_0000_0000 };
    if d >= 0x8000_0000 { d - 0x1_0000_0000 } else { d }
}

/// The finger and the action after a touch.
pub open spec fn touched(t: Touch, kind: TouchKind, x: i32, y: i32, now: u32) -> (Touch, TouchAction) {
    match kind {
        TouchKind::Down => (
            Touch {
                down: true,
                start_x: x,
                start_y: y,
                last_x: x,
                last_y: y,
                scrolling: false,
                last_t: now,
            },
            TouchAction::Stop,
        ),
        TouchKind::Move => if !t.down {
            (t, TouchAction::Nothing)
        } else {
            let pan = t.scrolling || moved_away(t, x, y);
            (
                Touch { last_x: x, last_y: y, last_t: now, scrolling: pan, ..t },
                TouchAction::Track {
                    dy: (y - t.last_y) as i32,
                    dt: elapsed(now, t.last_t) as i32,
                    pan,
                },
            )
        },
        TouchKind::Up => (
            Touch { down: false, scrolling: false, ..t },
            if !t.down {
                TouchAction::Nothing
            } else if t.scrolling {
                TouchAction::Fling
            } else {
                TouchAction::Tap {
                    down: PointerEvent::plain(
                        PointerKind::Down,
                        t.start_x,
                        t.start_y,
                        MouseButton::Left,
                    ),
                    up: PointerEvent::plain(PointerKind::Up, x, y, MouseButton::Left),
                }
            },
        ),
    }
}

impl Touch {
    /// No finger.
    pub open spec fn lifted() -> Touch {
        Touch {
            down: false,
            start_x: 0,
            start_y: 0,
            last_x: 0,
            last_y: 0,
            scrolling: false,
            last_t: 0,
        }
    }

    pub open spec fn wf(self) -> bool {
        on_screen(self.start_x) && on_screen(self.start_y) && on_screen(self.last_x) && on_screen(
            self.last_y,
        )
    }

    pub fn new() -> (r: Touch)
        ensures
            r == Touch::lifted(),
            r.wf(),
    {
        Touch {
            down: false,
            start_x: 0,
            start_y: 0,
            last_x: 0,
            last_y: 0,
            scrolling: false,
            last_t: 0,
        }
    }

    /// A touch at a position of the window.
    pub fn on_touch(&mut self, kind: TouchKind, x: i32, y: i32, now: u32) -> (r: TouchAction)
        requires
            old(self).wf(),
            on_screen(x),
            on_screen(y),
        ensures
            (*final(self), r) == touched(*old(self), kind, x, y, now),
            final(self).wf(),
    {
        match kind {
            TouchKind::Down => {
                *self = Touch {
                    down: true,
                    start_x: x,
                    start_y: y,
                    last_x: x,
                    last_y: y,
                    scrolling: false,
                    last_t: now,
                };
                TouchAction::Stop
            },
            TouchKind::Move => {
                if !self.down {
                    return TouchAction::Nothing;
                }
                let dy: i32 = y - self.last_y;
                let passed: u32 = now.wrapping_sub(self.last_t);
                let dt: i32 = if passed >= 0x8000_0000 {
                    (passed as i64 - 0x1_0000_0000) as i32
                } else {
                    passed as i32
                };
                let dx: i32 = x - self.start_x;
                let sy: i32 = y - self.start_y;
                let pan = self.scrolling || dx >= TOUCH_THRESHOLD || -dx >= TOUCH_THRESHOLD || sy
                    >= TOUCH_THRESHOLD || -sy >= TOUCH_THRESHOLD;
                self.last_x = x;
                self.last_y = y;
                self.last_t = now;
                self.scrolling = pan;
                TouchAction::Track { dy, dt, pan }
            },
            TouchKind::Up => {
                let down = self.down;
                let scrolling = self.scrolling;
                self.down = false;
                self.scrolling = false;
                if !down {
                    TouchAction::Nothing
                } else if scrolling {
                    TouchAction::Fling
                } else {
                    TouchAction::Tap {
                        down: PointerEvent::single(
                            PointerKind::Down,
                            self.start_x,
                            self.start_y,
                            MouseButton::Left,
                        ),
                        up: PointerEvent::single(PointerKind::Up, x, y, MouseButton::Left),
                    }
                }
            },
        }
    }
}

/// The kind of a touch point by its flags: down before up before move, and nothing otherwise.
pub fn touch_kind(down: bool, up: bool, moved: bool) -> (r: Option<TouchKind>)
    ensures
        r == (if down {
            Some(TouchKind::Down)
        } else if up {
            Some(TouchKind::Up)
        } else if moved {
            Some(TouchKind::Move)
        } else {
            None
        }),
{
    if down {
        Some(TouchKind::Down)
    } else if up {
        Some(TouchKind::Up)
    } else if moved {
        Some(TouchKind::Move)
    } else {
        None
    }
}

/// A touch point's position in pixels; it comes in hundredths.
pub fn touch_position(hundredths: i32) -> (r: i32)
    ensures
        hundredths >= 0 ==> r == hundredths / 100,
        hundredths < 0 ==> r == -((-hundredths) / 100),
        -100 < hundredths - 100 * r < 100,
        hundredths >= 0 ==> r >= 0,
        hundredths <= 0 ==> r <= 0,
{
    if hundredths >= 0 {
        hundredths / 100
    } else {
        -((-(hundredths as i64)) / 100) as i32
    }
}

/// A finger that goes down and comes up within the threshold, with any number of moves between
/// that stay within it, clicks and never scrolls: a move within the threshold leaves it not
/// scrolling.
pub proof fn small_moves_stay_a_tap(t: Touch, x: i32, y: i32, now: u32)
    requires
        t.down,
        !t.scrolling,
        !moved_away(t, x, y),
    ensures
        ({
            let (after, action) = touched(t, TouchKind::Move, x, y, now);
            &&& after.down && !after.scrolling
            &&& after.start_x == t.start_x && after.start_y == t.start_y
            &&& action matches TouchAction::Track { pan, .. } && !pan
        }),
        touched(t, TouchKind::Up, x, y, now).1 is Tap,
{
}

/// Once a finger scrolls it goes on scrolling, wherever it moves, and letting go never clicks.
pub proof fn a_scroll_never_clicks(t: Touch, x: i32, y: i32, now: u32)
    requires
        t.down,
        t.scrolling,
    ensures
        ({
            let (after, action) = touched(t, TouchKind::Move, x, y, now);
            &&& after.down && after.scrolling
            &&& action matches TouchAction::Track { pan, .. } && pan
        }),
        touched(t, TouchKind::Up, x, y, now).1 is Fling,
{
}

/// The distance between two positions.
pub open spec fn apart(a: int, b: int) -> int {
    if a >= b { a - b } else { b - a }
}

/// The positions that a finger moves through, one after the other, and the times.
pub open spec fn moved_through(t: Touch, path: Seq<(i32, i32, u32)>) -> Touch
    decreases path.len(),
{
    if path.len() == 0 {
        t
    } else {
        let before = moved_through(t, path.drop_last());
        touched(before, TouchKind::Move, path.last().0, path.last().1, path.last().2).0
    }
}

/// A finger that is down starts to pan as soon as it is twelve pixels from where it went down,
/// left or right, up or down, and not before. What it pans by and when is measured from its last
/// position.
pub proof fn twelve_pixels_pan(t: Touch, x: i32, y: i32, now: u32)
    requires
        t.down,
        t.wf(),
        on_screen(x),
        on_screen(y),
    ensures
        ({
            let (after, action) = touched(t, TouchKind::Move, x, y, now);
            let far = apart(x as int, t.start_x as int) >= 12 || apart(y as int, t.start_y as int)
                >= 12;
            &&& action matches TouchAction::Track { dy, dt, pan } && {
                &&& pan == (t.scrolling || far)
                &&& t.last_y + dy == y
                &&& (t.last_t + dt - now) % 0x1_0000_0000 == 0 && -0x8000_0000 <= dt < 0x8000_0000
            }
            &&& after.scrolling == (t.scrolling || far)
            &&& after.down
            &&& after.start_x == t.start_x && after.start_y == t.start_y
            &&& after.last_x == x && after.last_y == y && after.last_t == now
        }),
{
}

/// Directions are alike: a path mirrored left and right, or up and down, about the place where the
/// finger went down pans at the same moments and ends in the same way.
pub proof fn directions_are_alike(t: Touch, x: i32, y: i32, mx: i32, my: i32, now: u32)
    requires
        t.down,
        mx == x || mx - t.start_x == t.start_x - x,
        my == y || my - t.start_y == t.start_y - y,
    ensures
        ({
            let (after, action) = touched(t, TouchKind::Move, x, y, now);
            let (mirrored, other) = touched(t, TouchKind::Move, mx, my, now);
            &&& after.scrolling == mirrored.scrolling
            &&& action matches TouchAction::Track { pan, .. } && (other matches TouchAction::Track {
                pan: mpan,
                ..
            } && pan == mpan)
            &&& touched(after, TouchKind::Up, x, y, now).1 is Tap == touched(
                mirrored,
                TouchKind::Up,
                mx,
                my,
                now,
            ).1 is Tap
            &&& touched(after, TouchKind::Up, x, y, now).1 is Fling == touched(
                mirrored,
                TouchKind::Up,
                mx,
                my,
                now,
            ).1 is Fling
        }),
{
}

/// Whether the finger scrolls after a number of moves: when one of them was twelve pixels away
/// from where it went down. The place where it went down is kept.
pub proof fn a_path_scrolls_when_it_leaves(t: Touch, path: Seq<(i32, i32, u32)>)
    requires
        t.down,
    ensures
        ({
            let after = moved_through(t, path);
            &&& after.down
            &&& after.start_x == t.start_x && after.start_y == t.start_y
            &&& after.scrolling == (t.scrolling || exists|i: int|
                0 <= i < path.len() && (apart((#[trigger] path[i]).0 as int, t.start_x as int) >= 12
                    || apart(path[i].1 as int, t.start_y as int) >= 12))
            &&& path.len() > 0 ==> after.last_x == path.last().0 && after.last_y == path.last().1
                && after.last_t == path.last().2
        }),
    decreases path.len(),
{
    if path.len() > 0 {
        let init = path.drop_last();
        a_path_scrolls_when_it_leaves(t, init);
        let p = path.last();
        let after = moved_through(t, path);
        if after.scrolling && !t.scrolling {
            if moved_through(t, init).scrolling {
                let i = choose|i: int|
                    0 <= i < init.len() && (apart((#[trigger] init[i]).0 as int, t.start_x as int)
                        >= 12 || apart(init[i].1 as int, t.start_y as int) >= 12);
                assert(path[i] == init[i]);
            } else {
                assert(path[path.len() - 1] == p);
            }
        }
        if !after.scrolling {
            assert forall|i: int| 0 <= i < path.len() implies apart(
                (#[trigger] path[i]).0 as int,
                t.start_x as int,
            ) < 12 && apart(path[i].1 as int, t.start_y as int) < 12 by {
                if i < init.len() {
                    assert(init[i] == path[i]);
                }
            }
        }
    }
}

/// A touch from beginning to end: a finger that goes down, moves and comes up clicks exactly when
/// it was never twelve pixels away from where it went down, and glides otherwise. The click is
/// the left button's, pressed where the finger went down and released where it came up.
pub proof fn a_touch_clicks_or_glides(
    t: Touch,
    x0: i32,
    y0: i32,
    path: Seq<(i32, i32, u32)>,
    x: i32,
    y: i32,
    start: u32,
    end: u32,
)
    ensures
        ({
            let (down, first) = touched(t, TouchKind::Down, x0, y0, start);
            let (up, last) = touched(moved_through(down, path), TouchKind::Up, x, y, end);
            let left = exists|i: int|
                0 <= i < path.len() && (apart((#[trigger] path[i]).0 as int, x0 as int) >= 12 || apart(
                    path[i].1 as int,
                    y0 as int,
                ) >= 12);
            &&& first is Stop
            &&& left == last is Fling
            &&& !left == last is Tap
            &&& last matches TouchAction::Tap { down, up } ==> {
                &&& down.kind == PointerKind::Down && down.x == x0 && down.y == y0
                &&& up.kind == PointerKind::Up && up.x == x && up.y == y
                &&& down.button == MouseButton::Left && up.button == MouseButton::Left
                &&& down.click_count == 1 && up.click_count == 1
            }
            &&& !up.down && !up.scrolling
            &&& touched(up, TouchKind::Move, x, y, end) == (up, TouchAction::Nothing)
            &&& touched(up, TouchKind::Up, x, y, end).1 is Nothing
        }),
{
    let (down, first) = touched(t, TouchKind::Down, x0, y0, start);
    a_path_scrolls_when_it_leaves(down, path);
}

/// The time between two moves is the same wherever the clock stands, also across its end.
pub proof fn the_clock_may_wrap(now: u32, then: u32, later: u32, before: u32, shift: int)
    requires
        later == (now + shift) % 0x1_0000_0000,
        before == (then + shift) % 0x1_0000_0000,
    ensures
        elapsed(later, before) == elapsed(now, then),
        elapsed(now, now) == 0,
        0 < elapsed(now, then) < 0x8000_0000 ==> elapsed(then, now) == -elapsed(now, then),
{
}

/// Without a finger nothing moves and nothing is clicked; the next one starts anew.
pub proof fn no_finger_does_nothing(x: i32, y: i32, now: u32)
    ensures
        touched(Touch::lifted(), TouchKind::Move, x, y, now) == (
            Touch::lifted(),
            TouchAction::Nothing,
        ),
        touched(Touch::lifted(), TouchKind::Up, x, y, now) == (
            Touch::lifted(),
            TouchAction::Nothing,
        ),
        ({
            let t = touched(Touch::lifted(), TouchKind::Down, x, y, now).0;
            t.down && !t.scrolling && t.start_x == x && t.start_y == y && t.last_x == x && t.last_y
                == y && t.last_t == now
        }),
{
}

} // verus!
