//! Counting clicks up to three.

use vstd::prelude::*;

verus! {

/// The last click.
#[derive(Clone, Copy, Debug, PartialEq, Eq, Structural)]
pub struct ClickTracker {
    pub time_ms: u32,
    pub x: i32,
    pub y: i32,
    pub button: i32,
    pub count: u8,
}

/// Milliseconds from `then` to `now` on a clock that wraps.
pub open spec fn since(now: u32, then: u32) -> int {
    if now >= then { now - then } else { now - then + 0x1_0000_0000 }
}

/// How quick and how near a click has to be to continue.
#[derive(Clone, Copy, Debug, PartialEq, Eq, Structural)]
pub struct ClickLimits {
    pub ms: u32,
    pub dx: i32,
    pub dy: i32,
}

impl ClickTracker {
    /// A click continues the last one.
    pub open spec fn continues(self, button: i32, x: i32, y: i32, now: u32, l: ClickLimits) -> bool {
        &&& self.count > 0
        &&& self.button == button
        &&& since(now, self.time_ms) <= l.ms
        &&& -l.dx <= x - self.x <= l.dx
        &&& -l.dy <= y - self.y <= l.dy
    }

    /// The tracker after a click.
    pub open spec fn bumped(self, button: i32, x: i32, y: i32, now: u32, l: ClickLimits) -> ClickTracker {
        ClickTracker {
            time_ms: now,
            x,
            y,
            button,
            count: if !self.continues(button, x, y, now, l) {
                1u8
            } else if self.count >= 3 {
                3u8
            } else {
                (self.count + 1) as u8
            },
        }
    }

    /// Takes a click into account and returns its number: one more than the click it continues,
    /// three at most.
    pub fn bump(
        &mut self,
        button: i32,
        x: i32,
        y: i32,
        now_ms: u32,
        dbl_ms: u32,
        dx: i32,
        dy: i32,
    ) -> (r: u8)
        ensures
            *final(self) == old(self).bumped(
                button,
                x,
                y,
                now_ms,
                (ClickLimits { ms: dbl_ms, dx, dy }),
            ),
            r == final(self).count,
            1 <= r <= 3,
    {
        let mx: i64 = x as i64 - self.x as i64;
        let my: i64 = y as i64 - self.y as i64;
        let lx: i64 = dx as i64;
        let ly: i64 = dy as i64;
        let continued = self.count > 0 && self.button == button && now_ms.wrapping_sub(
            self.time_ms,
        ) <= dbl_ms && -lx <= mx && mx <= lx && -ly <= my && my <= ly;
        let count: u8 = if !continued {
            1
        } else if self.count >= 3 {
            3
        } else {
            self.count + 1
        };
        *self = ClickTracker { time_ms: now_ms, x, y, button, count };
        count
    }
}

impl Default for ClickTracker {
    fn default() -> (r: ClickTracker)
        ensures
            r == (ClickTracker { time_ms: 0, x: 0, y: 0, button: 0, count: 0 }),
    {
        ClickTracker { time_ms: 0, x: 0, y: 0, button: 0, count: 0 }
    }
}

/// Clicks of one button in one place, each soon after the last, count one, two, three, three;
/// a click too late starts over.
pub proof fn clicks_count_to_three(
    t: ClickTracker,
    button: i32,
    x: i32,
    y: i32,
    times: (u32, u32, u32, u32),
    l: ClickLimits,
)
    requires
        l.dx >= 0 && l.dy >= 0,
        t.bumped(button, x, y, times.0, l).count == 1,
        since(times.1, times.0) <= l.ms,
        since(times.2, times.1) <= l.ms,
    ensures
        ({
            let one = t.bumped(button, x, y, times.0, l);
            let two = one.bumped(button, x, y, times.1, l);
            let three = two.bumped(button, x, y, times.2, l);
            let last = three.bumped(button, x, y, times.3, l);
            &&& two.count == 2
            &&& three.count == 3
            &&& last.count == (if since(times.3, times.2) <= l.ms { 3int } else { 1int })
        }),
{
}

/// A click continues the last one exactly when it is of the same button, no later than the limit
/// on a clock that starts over at its end, and no further away than the limits, left or right and
/// up or down. It then counts one more, up to three; any other click counts one.
pub proof fn near_and_quick_clicks_continue(
    t: ClickTracker,
    button: i32,
    x: i32,
    y: i32,
    passed: u32,
    l: ClickLimits,
)
    requires
        t.count <= 3,
    ensures
        ({
            let now = ((t.time_ms + passed) % 0x1_0000_0000) as u32;
            let after = t.bumped(button, x, y, now, l);
            let dx = if x >= t.x { x - t.x } else { t.x - x };
            let dy = if y >= t.y { y - t.y } else { t.y - y };
            let goes_on = t.count > 0 && button == t.button && passed <= l.ms && dx <= l.dx && dy
                <= l.dy;
            &&& since(now, t.time_ms) == passed
            &&& goes_on && t.count < 3 ==> after.count == t.count + 1
            &&& goes_on && t.count == 3 ==> after.count == 3
            &&& !goes_on ==> after.count == 1
            &&& after.x == x && after.y == y && after.button == button && after.time_ms == now
        }),
{
}

} // verus!
