//! Periodic timers, animation frames, and how long the event loop may sleep.

use super::session;
use super::window::{Timer, Win};
use vstd::prelude::*;

verus! {

/// The frame interval in milliseconds: the refresh rate cannot be learned reliably here.
pub const FRAME_MS: u64 = 16;

/// The longest that content may ask to be left alone, in milliseconds.
pub const MAX_FRAME_DELAY_MS: u64 = 5000;

/// The shortest period of a timer, in nanoseconds: a period of zero would keep the loop from
/// ever sleeping.
pub const MIN_PERIOD: u64 = 10_000_000;

/// Nanoseconds in a millisecond.
pub const MILLISECOND: u64 = 1_000_000;

/// A timer that came due.
#[derive(Clone, Copy, Debug, PartialEq, Eq, Structural)]
pub struct Fired {
    pub window: u32,
    pub index: usize,
}

/// A timer's next due time is representable.
pub open spec fn schedulable(t: Timer, now: u64) -> bool {
    t.due + t.period <= u64::MAX && now + t.period <= u64::MAX
}

/// A timer after the clock reached `now`. One that is due moves on by its period; one that fell
/// behind by more is aligned to `now`, so that it does not fire in a burst after a suspension.
pub open spec fn advanced(t: Timer, now: u64) -> Timer {
    if now < t.due {
        t
    } else if t.due + t.period < now {
        Timer { period: t.period, due: (now + t.period) as u64 }
    } else {
        Timer { period: t.period, due: (t.due + t.period) as u64 }
    }
}

/// The timers after the clock reached `now`.
pub open spec fn advanced_all(s: Seq<Timer>, now: u64) -> Seq<Timer> {
    Seq::new(s.len(), |i: int| advanced(s[i], now))
}

/// Which of the first `n` timers of a window are due, in order.
pub open spec fn due_timers(id: u32, s: Seq<Timer>, now: u64, n: int) -> Seq<Fired>
    decreases n,
{
    if n <= 0 {
        Seq::empty()
    } else if s[n - 1].due <= now {
        due_timers(id, s, now, n - 1).push(Fired { window: id, index: (n - 1) as usize })
    } else {
        due_timers(id, s, now, n - 1)
    }
}

/// Which timers of the first `n` windows are due, in order.
pub open spec fn due_in(s: Seq<Win>, now: u64, n: int) -> Seq<Fired>
    decreases n,
{
    if n <= 0 {
        Seq::empty()
    } else {
        let ts = s[n - 1].intervals@;
        due_in(s, now, n - 1) + due_timers(s[n - 1].id, ts, now, ts.len() as int)
    }
}

/// The earlier of two times, where there are any.
pub open spec fn sooner(a: Option<u64>, b: Option<u64>) -> Option<u64> {
    match (a, b) {
        (Some(x), Some(y)) => Some(if x <= y { x } else { y }),
        (Some(x), None) => Some(x),
        (None, _) => b,
    }
}

/// The earliest due time among the first `n` timers.
pub open spec fn earliest(s: Seq<Timer>, n: int) -> Option<u64>
    decreases n,
{
    if n <= 0 {
        None
    } else {
        sooner(earliest(s, n - 1), Some(s[n - 1].due))
    }
}

/// The earliest due time among the timers of the first `n` windows, once they moved on.
pub open spec fn earliest_in(s: Seq<Win>, now: u64, n: int) -> Option<u64>
    decreases n,
{
    if n <= 0 {
        None
    } else {
        let ts = advanced_all(s[n - 1].intervals@, now);
        sooner(earliest_in(s, now, n - 1), earliest(ts, ts.len() as int))
    }
}

fn min_time(a: Option<u64>, b: Option<u64>) -> (r: Option<u64>)
    ensures
        r == sooner(a, b),
{
    match (a, b) {
        (Some(x), Some(y)) => if x <= y {
            Some(x)
        } else {
            Some(y)
        },
        (Some(x), None) => Some(x),
        (None, _) => b,
    }
}

/// Moves the timers of one window on: which are due, and the earliest time any is due next.
fn tick_window(w: &mut Win, now: u64, fired: &mut Vec<Fired>) -> (r: Option<u64>)
    requires
        forall|i: int|
            0 <= i < old(w).intervals@.len() ==> schedulable(#[trigger] old(w).intervals@[i], now),
    ensures
        final(w).intervals@ == advanced_all(old(w).intervals@, now),
        *final(w) == (Win { intervals: final(w).intervals, ..*old(w) }),
        final(fired)@ == old(fired)@ + due_timers(
            old(w).id,
            old(w).intervals@,
            now,
            old(w).intervals@.len() as int,
        ),
        r == earliest(final(w).intervals@, final(w).intervals@.len() as int),
{
    let ghost ts = w.intervals@;
    let ghost before = fired@;
    let ghost start = *w;
    let id: u32 = w.id;
    let n: usize = w.intervals.len();
    let mut next: Option<u64> = None;
    let mut i: usize = 0;
    assert(fired@ =~= before + due_timers(id, ts, now, 0));
    while i < n
        invariant
            i <= n,
            n == ts.len(),
            n == w.intervals@.len(),
            id == start.id,
            *w == (Win { intervals: w.intervals, ..start }),
            forall|j: int| 0 <= j < ts.len() ==> schedulable(#[trigger] ts[j], now),
            forall|j: int| 0 <= j < i ==> #[trigger] w.intervals@[j] == advanced(ts[j], now),
            forall|j: int| i <= j < n ==> #[trigger] w.intervals@[j] == ts[j],
            fired@ == before + due_timers(id, ts, now, i as int),
            next == earliest(advanced_all(ts, now), i as int),
        decreases n - i,
    {
        let mut t = w.intervals[i];
        assert(schedulable(ts[i as int], now));
        if t.due <= now {
            fired.push(Fired { window: id, index: i });
            assert(fired@ =~= before + due_timers(id, ts, now, i + 1));
            let on: u64 = t.due + t.period;
            t.due = if on < now { now + t.period } else { on };
        }
        w.intervals[i] = t;
        next = min_time(next, Some(t.due));
        i += 1;
    }
    assert(w.intervals@ =~= advanced_all(ts, now));
    next
}

/// Moves all timers on: which are due, in table order, and the earliest time any is due next.
/// The host runs the callbacks afterwards, by window id, for one may close windows.
pub fn tick_timers(windows: &mut Vec<Win>, now: u64) -> (r: (Vec<Fired>, Option<u64>))
    requires
        forall|w: int, i: int|
            0 <= w < old(windows)@.len() && 0 <= i < old(windows)@[w].intervals@.len()
                ==> schedulable(#[trigger] old(windows)@[w].intervals@[i], now),
    ensures
        r.0@ == due_in(old(windows)@, now, old(windows)@.len() as int),
        r.1 == earliest_in(old(windows)@, now, old(windows)@.len() as int),
        final(windows)@.len() == old(windows)@.len(),
        forall|i: int|
            0 <= i < final(windows)@.len() ==> (#[trigger] final(windows)@[i]).intervals@
                == advanced_all(old(windows)@[i].intervals@, now) && final(windows)@[i] == (Win {
                intervals: final(windows)@[i].intervals,
                ..old(windows)@[i]
            }),
{
    let ghost s = windows@;
    let n: usize = windows.len();
    let mut fired: Vec<Fired> = Vec::new();
    let mut next: Option<u64> = None;
    let mut i: usize = 0;
    while i < n
        invariant
            i <= n,
            n == s.len(),
            n == windows@.len(),
            forall|w: int, j: int|
                0 <= w < s.len() && 0 <= j < s[w].intervals@.len() ==> schedulable(
                    #[trigger] s[w].intervals@[j],
                    now,
                ),
            forall|j: int|
                0 <= j < i ==> (#[trigger] windows@[j]).intervals@ == advanced_all(
                    s[j].intervals@,
                    now,
                ) && windows@[j] == (Win { intervals: windows@[j].intervals, ..s[j] }),
            forall|j: int| i <= j < n ==> #[trigger] windows@[j] == s[j],
            fired@ == due_in(s, now, i as int),
            next == earliest_in(s, now, i as int),
        decreases n - i,
    {
        assert(windows@[i as int] == s[i as int]);
        assert forall|j: int| 0 <= j < windows@[i as int].intervals@.len() implies schedulable(
            #[trigger] windows@[i as int].intervals@[j],
            now,
        ) by {
            assert(schedulable(s[i as int].intervals@[j], now));
        }
        let first = tick_window(&mut windows[i], now, &mut fired);
        next = min_time(next, first);
        i += 1;
    }
    (fired, next)
}

/// The delay between animation frames, in nanoseconds: what the content asks for, but no less
/// than a frame and no more than the longest delay.
pub open spec fn frame_delay(ask_ms: u64) -> int {
    let ask = if ask_ms < MAX_FRAME_DELAY_MS { ask_ms } else { MAX_FRAME_DELAY_MS };
    let ms = if ask < FRAME_MS { FRAME_MS } else { ask };
    ms * MILLISECOND
}

/// The least of the delays that the animating windows ask for.
pub open spec fn least(asks: Seq<u64>, n: int) -> Option<u64>
    decreases n,
{
    if n <= 0 {
        None
    } else {
        sooner(least(asks, n - 1), Some(asks[n - 1]))
    }
}

/// An animation frame, or the wait for one.
#[derive(Clone, Copy, Debug, PartialEq, Eq, Structural)]
pub struct AnimationStep {
    /// The animating windows are to draw a frame.
    pub frame: bool,
    /// When the next frame is due.
    pub at: u64,
}

/// What is done about the animation: a frame where the least of the delays has passed, and when
/// the next one is due.
pub open spec fn step_for(asks: Seq<u64>, now: u64, elapsed: u64) -> Option<AnimationStep> {
    match least(asks, asks.len() as int) {
        None => None,
        Some(ask) => Some(
            if elapsed >= frame_delay(ask) {
                AnimationStep { frame: true, at: (now + frame_delay(ask)) as u64 }
            } else {
                AnimationStep { frame: false, at: (now + frame_delay(ask) - elapsed) as u64 }
            },
        ),
    }
}

/// The animation frames: `asks` are the delays of the windows that are mapped, not minimised
/// and animating; `elapsed` is the time since the last frame. Without any there is nothing to
/// do.
pub fn animation_step(asks: &[u64], now: u64, elapsed: u64) -> (r: Option<AnimationStep>)
    requires
        now + MAX_FRAME_DELAY_MS * MILLISECOND <= u64::MAX,
    ensures
        r == step_for(asks@, now, elapsed),
{
    let mut ask: Option<u64> = None;
    let mut i: usize = 0;
    while i < asks.len()
        invariant
            i <= asks@.len(),
            ask == least(asks@, i as int),
        decreases asks@.len() - i,
    {
        ask = min_time(ask, Some(asks[i]));
        i += 1;
    }
    match ask {
        None => None,
        Some(ask_ms) => {
            let capped: u64 = if ask_ms < MAX_FRAME_DELAY_MS { ask_ms } else { MAX_FRAME_DELAY_MS };
            let ms: u64 = if capped < FRAME_MS { FRAME_MS } else { capped };
            let delay: u64 = ms * MILLISECOND;
            if elapsed >= delay {
                Some(AnimationStep { frame: true, at: now + delay })
            } else {
                Some(AnimationStep { frame: false, at: now + (delay - elapsed) })
            }
        },
    }
}

/// A window takes part in the animation: it is mapped, not minimised, and its content wants to
/// go on.
pub open spec fn moving(w: Win, wants: bool) -> bool {
    w.shown.mapped && !w.shown.minimized && wants
}

pub fn animates(w: &Win, wants: bool) -> (r: bool)
    ensures
        r == moving(*w, wants),
{
    w.shown.mapped && !w.shown.minimized && wants
}

/// The delays that the moving ones among the first `n` windows ask for, in order.
pub open spec fn asked_delays(s: Seq<Win>, wishes: Seq<Option<u64>>, n: int) -> Seq<u64>
    decreases n,
{
    if n <= 0 {
        Seq::empty()
    } else if moving(s[n - 1], wishes[n - 1] is Some) {
        asked_delays(s, wishes, n - 1).push(wishes[n - 1].unwrap())
    } else {
        asked_delays(s, wishes, n - 1)
    }
}

/// The windows once the moving ones ask for a frame.
pub open spec fn moving_dirty(s: Seq<Win>, wishes: Seq<Option<u64>>) -> Seq<Win> {
    Seq::new(s.len(), |i: int| session::dirty_if(s[i], moving(s[i], wishes[i] is Some)))
}

/// A turn of the animation: `wishes` holds for each window the delay that its content asks for,
/// where it wants to go on. When a frame is due, the windows that take part ask for one.
pub fn animate(windows: &mut Vec<Win>, wishes: &[Option<u64>], now: u64, elapsed: u64) -> (r: Option<
    AnimationStep,
>)
    requires
        wishes@.len() == old(windows)@.len(),
        now + MAX_FRAME_DELAY_MS * MILLISECOND <= u64::MAX,
    ensures
        ({
            let s = old(windows)@;
            let asks = asked_delays(s, wishes@, s.len() as int);
            &&& r == step_for(asks, now, elapsed)
            &&& final(windows)@ == (if r matches Some(step) && step.frame {
                moving_dirty(s, wishes@)
            } else {
                s
            })
        }),
{
    let ghost s = windows@;
    let n: usize = windows.len();
    let mut asks: Vec<u64> = Vec::new();
    let mut i: usize = 0;
    while i < n
        invariant
            i <= n,
            n == s.len(),
            n == wishes@.len(),
            windows@ == s,
            asks@ == asked_delays(s, wishes@, i as int),
        decreases n - i,
    {
        if let Some(ask) = wishes[i] {
            if animates(&windows[i], true) {
                asks.push(ask);
            }
        }
        i += 1;
    }
    let step = animation_step(&asks, now, elapsed);
    let frame = match &step {
        Some(f) => f.frame,
        None => false,
    };
    if frame {
        let mut k: usize = 0;
        while k < n
            invariant
                k <= n,
                n == s.len(),
                n == wishes@.len(),
                n == windows@.len(),
                forall|j: int| 0 <= j < k ==> #[trigger] windows@[j] == moving_dirty(s, wishes@)[j],
                forall|j: int| k <= j < n ==> #[trigger] windows@[j] == s[j],
            decreases n - k,
        {
            let ghost before = windows@;
            if animates(&windows[k], wishes[k].is_some()) {
                windows[k].paint.needs_paint = true;
                assert(windows@ =~= before.update(k as int, session::dirty(s[k as int])));
            }
            k += 1;
        }
        assert(windows@ =~= moving_dirty(s, wishes@));
    }
    step
}

/// How long until the next deadline: none where there is none, zero where it has passed.
pub fn time_left(timer: Option<u64>, frame: Option<AnimationStep>, clock: u64) -> (r: Option<u64>)
    ensures
        r == (match sooner(
            timer,
            match frame {
                Some(f) => Some(f.at),
                None => None,
            },
        ) {
            Some(t) => Some(if t <= clock { 0u64 } else { (t - clock) as u64 }),
            None => None,
        }),
        r is None <==> timer is None && frame is None,
        timer matches Some(t) ==> r.unwrap() == 0 || clock + r.unwrap() <= t,
        frame matches Some(f) ==> r.unwrap() == 0 || clock + r.unwrap() <= f.at,
        r matches Some(left) ==> (timer matches Some(t) && clock + left >= t) || (
        frame matches Some(f) && clock + left >= f.at),
{
    let at: Option<u64> = match frame {
        Some(f) => Some(f.at),
        None => None,
    };
    match min_time(timer, at) {
        Some(t) => Some(
            if t <= clock {
                0
            } else {
                t - clock
            },
        ),
        None => None,
    }
}

/// A timer of at least the shortest period, first due one period from now.
pub fn start_timer(period: u64, now: u64) -> (r: Timer)
    requires
        now + MIN_PERIOD <= u64::MAX,
        now + period <= u64::MAX,
    ensures
        r.period == (if period < MIN_PERIOD { MIN_PERIOD } else { period }),
        r.due == now + r.period,
        r.period >= 10_000_000 && r.period >= period,
        period >= 10_000_000 ==> r.period == period,
{
    let p: u64 = if period < MIN_PERIOD { MIN_PERIOD } else { period };
    Timer { period: p, due: now + p }
}

/// The argument of the poll call: rounded up to whole milliseconds, so that the loop does not
/// wake early and spin; `-1` waits without end.
pub open spec fn poll_timeout(wait: Option<u64>) -> int {
    match wait {
        None => -1,
        Some(ns) => {
            let us = ns as int / 1000;
            let ms = (us + 999) / 1000;
            if ms > i32::MAX { i32::MAX as int } else { ms }
        },
    }
}

pub fn poll_timeout_ms(wait: Option<u64>) -> (r: i32)
    ensures
        r == poll_timeout(wait),
{
    match wait {
        None => -1,
        Some(ns) => {
            let us: u64 = ns / 1000;
            let ms: u64 = (us + 999) / 1000;
            if ms > i32::MAX as u64 {
                i32::MAX
            } else {
                ms as i32
            }
        },
    }
}

/// A timer never fires in a burst: once it moved on it is not overdue, and if it fired it is
/// not due again before `now`. One that was on time keeps its phase.
pub proof fn timers_do_not_burst(t: Timer, now: u64)
    requires
        schedulable(t, now),
        t.period > 0,
    ensures
        advanced(t, now).due >= now,
        advanced(advanced(t, now), now).due >= now,
        t.due <= now <= t.due + t.period ==> advanced(t, now).due == t.due + t.period,
        now < t.due ==> advanced(t, now) == t,
        advanced(t, now).period == t.period,
{
}

/// A window that is not shown, or whose content is at rest, is never drawn for the animation.
pub proof fn still_windows_are_left_alone(s: Seq<Win>, wishes: Seq<Option<u64>>, i: int)
    requires
        0 <= i < s.len(),
        !moving(s[i], wishes[i] is Some),
    ensures
        moving_dirty(s, wishes)[i] == s[i],
{
}

/// Frames come neither faster than the refresh rate nor later than the longest delay.
pub proof fn frame_delay_is_bounded(ask_ms: u64)
    ensures
        FRAME_MS * MILLISECOND <= frame_delay(ask_ms) <= MAX_FRAME_DELAY_MS * MILLISECOND,
        FRAME_MS <= ask_ms <= MAX_FRAME_DELAY_MS ==> frame_delay(ask_ms) == ask_ms * MILLISECOND,
{
}

/// A timer fires exactly when it is due, once, and in the order of the timers.
pub proof fn due_timers_fire_once(id: u32, s: Seq<Timer>, now: u64, n: int)
    requires
        0 <= n <= s.len() <= usize::MAX,
    ensures
        forall|i: int|
            0 <= i < n ==> (due_timers(id, s, now, n).contains(
                Fired { window: id, index: i as usize },
            ) <==> (#[trigger] s[i]).due <= now),
        forall|k: int|
            0 <= k < due_timers(id, s, now, n).len() ==> (#[trigger] due_timers(
                id,
                s,
                now,
                n,
            )[k]).window == id && due_timers(id, s, now, n)[k].index < n,
        forall|k: int, l: int|
            0 <= k < l < due_timers(id, s, now, n).len() ==> (#[trigger] due_timers(
                id,
                s,
                now,
                n,
            )[k]).index < (#[trigger] due_timers(id, s, now, n)[l]).index,
    decreases n,
{
    if n > 0 {
        due_timers_fire_once(id, s, now, n - 1);
        let before = due_timers(id, s, now, n - 1);
        let all = due_timers(id, s, now, n);
        if s[n - 1].due <= now {
            assert(all[before.len() as int] == (Fired { window: id, index: (n - 1) as usize }));
        }
        assert forall|i: int| 0 <= i < n implies (all.contains(
            Fired { window: id, index: i as usize },
        ) <==> (#[trigger] s[i]).due <= now) by {
            let f = Fired { window: id, index: i as usize };
            if i < n - 1 {
                if before.contains(f) {
                    let k = choose|k: int| 0 <= k < before.len() && before[k] == f;
                    assert(all[k] == f);
                }
                if all.contains(f) {
                    let k = choose|k: int| 0 <= k < all.len() && all[k] == f;
                    if k < before.len() {
                        assert(before[k] == f);
                    }
                }
            } else if all.contains(f) {
                let k = choose|k: int| 0 <= k < all.len() && all[k] == f;
                if k < before.len() {
                    assert(before[k].index < n - 1);
                }
            }
        }
    }
}

/// The timers of all windows that fire: those that are due, each by its window and its place
/// there, and no other.
pub proof fn due_timers_of_all_windows(s: Seq<Win>, now: u64, n: int, w: int, i: int)
    requires
        0 <= w < n <= s.len(),
        0 <= i < s[w].intervals@.len(),
        s[w].intervals@[i].due <= now,
        forall|j: int| 0 <= j < s.len() ==> (#[trigger] s[j]).intervals@.len() <= usize::MAX,
    ensures
        due_in(s, now, n).contains(Fired { window: s[w].id, index: i as usize }),
    decreases n,
{
    let ts = s[n - 1].intervals@;
    let f = Fired { window: s[w].id, index: i as usize };
    let before = due_in(s, now, n - 1);
    let last = due_timers(s[n - 1].id, ts, now, ts.len() as int);
    let all = due_in(s, now, n);
    if w < n - 1 {
        due_timers_of_all_windows(s, now, n - 1, w, i);
        let k = choose|k: int| 0 <= k < before.len() && before[k] == f;
        assert(all[k] == f);
    } else {
        due_timers_fire_once(s[w].id, ts, now, ts.len() as int);
        assert(ts[i].due <= now);
        let k = choose|k: int| 0 <= k < last.len() && last[k] == f;
        assert(all[before.len() + k] == f);
    }
}

/// Whatever fires is due.
pub proof fn what_fires_is_due(s: Seq<Win>, now: u64, n: int, k: int)
    requires
        0 <= n <= s.len(),
        0 <= k < due_in(s, now, n).len(),
        forall|j: int| 0 <= j < s.len() ==> (#[trigger] s[j]).intervals@.len() <= usize::MAX,
    ensures
        exists|w: int|
            0 <= w < n && (#[trigger] s[w]).id == due_in(s, now, n)[k].window && due_in(
                s,
                now,
                n,
            )[k].index < s[w].intervals@.len() && s[w].intervals@[due_in(s, now, n)[k].index as int].due
                <= now,
    decreases n,
{
    let ts = s[n - 1].intervals@;
    let before = due_in(s, now, n - 1);
    let last = due_timers(s[n - 1].id, ts, now, ts.len() as int);
    let all = due_in(s, now, n);
    if k < before.len() {
        assert(all[k] == before[k]);
        what_fires_is_due(s, now, n - 1, k);
    } else {
        due_timers_fire_once(s[n - 1].id, ts, now, ts.len() as int);
        let f = last[k - before.len()];
        assert(all[k] == f);
        assert(f.index < ts.len());
        assert(last.contains(f));
        assert(f == (Fired { window: s[n - 1].id, index: (f.index as int) as usize }));
        assert(ts[f.index as int].due <= now);
        assert(s[n - 1].id == f.window);
    }
}

/// A timer that fired is due again a period after it was, or a period from now where even that
/// has passed: within a period from now, and not before now.
pub proof fn timers_keep_their_period(t: Timer, now: u64)
    requires
        schedulable(t, now),
        t.due <= now,
    ensures
        advanced(t, now).period == t.period,
        now <= advanced(t, now).due <= now + t.period,
        advanced(t, now).due == t.due + t.period || advanced(t, now).due == now + t.period,
        t.due + t.period >= now ==> advanced(t, now).due - t.due == t.period,
{
}

/// The earliest of the due times is one of them, and none comes before it.
pub proof fn the_earliest_comes_first(s: Seq<Timer>, n: int)
    requires
        0 <= n <= s.len(),
    ensures
        earliest(s, n) is None <==> n == 0,
        earliest(s, n) matches Some(t) ==> (exists|i: int| 0 <= i < n && (#[trigger] s[i]).due == t)
            && forall|i: int| 0 <= i < n ==> t <= (#[trigger] s[i]).due,
    decreases n,
{
    if n > 0 {
        the_earliest_comes_first(s, n - 1);
        let t = earliest(s, n).unwrap();
        if t == s[n - 1].due {
        } else {
            let i = choose|i: int| 0 <= i < n - 1 && (#[trigger] s[i]).due == t;
            assert(s[i].due == t);
        }
    }
}

/// The loop need not wake for a timer before the earliest time that any of any window is due, and
/// has to then.
pub proof fn the_next_deadline_is_the_earliest(s: Seq<Win>, now: u64, n: int)
    requires
        0 <= n <= s.len(),
    ensures
        earliest_in(s, now, n) is None ==> forall|w: int|
            0 <= w < n ==> (#[trigger] s[w]).intervals@.len() == 0,
        earliest_in(s, now, n) matches Some(t) ==> {
            &&& forall|w: int, i: int|
                0 <= w < n && 0 <= i < s[w].intervals@.len() ==> t <= advanced(
                    #[trigger] s[w].intervals@[i],
                    now,
                ).due
            &&& exists|w: int, i: int|
                0 <= w < n && 0 <= i < s[w].intervals@.len() && advanced(
                    #[trigger] s[w].intervals@[i],
                    now,
                ).due == t
        },
    decreases n,
{
    if n > 0 {
        the_next_deadline_is_the_earliest(s, now, n - 1);
        let ts = advanced_all(s[n - 1].intervals@, now);
        the_earliest_comes_first(ts, ts.len() as int);
        let own = earliest(ts, ts.len() as int);
        if let Some(t) = earliest_in(s, now, n) {
            assert forall|w: int, i: int| 0 <= w < n && 0 <= i < s[w].intervals@.len() implies t
                <= advanced(#[trigger] s[w].intervals@[i], now).due by {
                if w == n - 1 {
                    assert(ts[i].due == advanced(s[w].intervals@[i], now).due);
                }
            }
            if own == Some(t) {
                let i = choose|i: int| 0 <= i < ts.len() && (#[trigger] ts[i]).due == t;
                assert(advanced(s[n - 1].intervals@[i], now).due == t);
            } else {
                let (w, i) = choose|w: int, i: int|
                    0 <= w < n - 1 && 0 <= i < s[w].intervals@.len() && advanced(
                        #[trigger] s[w].intervals@[i],
                        now,
                    ).due == t;
                assert(advanced(s[w].intervals@[i], now).due == t);
            }
        }
    }
}

/// The least of the delays is one of them, and none is shorter.
pub proof fn the_least_delay_counts(asks: Seq<u64>, n: int)
    requires
        0 <= n <= asks.len(),
    ensures
        least(asks, n) is None <==> n == 0,
        least(asks, n) matches Some(a) ==> (exists|i: int| 0 <= i < n && #[trigger] asks[i] == a)
            && forall|i: int| 0 <= i < n ==> a <= #[trigger] asks[i],
    decreases n,
{
    if n > 0 {
        the_least_delay_counts(asks, n - 1);
        let a = least(asks, n).unwrap();
        if a != asks[n - 1] {
            let i = choose|i: int| 0 <= i < n - 1 && #[trigger] asks[i] == a;
            assert(asks[i] == a);
        }
    }
}

/// Frames of an animation come as far apart as the most impatient window asks, but no closer than
/// sixteen milliseconds and no further than five seconds; the next one is due that long after the
/// last.
pub proof fn frames_keep_their_distance(asks: Seq<u64>, now: u64, elapsed: u64, i: int)
    requires
        0 <= i < asks.len(),
        forall|j: int| 0 <= j < asks.len() ==> asks[i] <= #[trigger] asks[j],
        now + 5_000_000_000 <= u64::MAX,
    ensures
        ({
            let ms = if asks[i] < 16 { 16int } else if asks[i] > 5000 { 5000 } else { asks[i] as int };
            step_for(asks, now, elapsed) matches Some(step) && {
                &&& step.frame <==> elapsed >= ms * 1_000_000
                &&& step.frame ==> step.at == now + ms * 1_000_000
                &&& !step.frame ==> step.at + elapsed == now + ms * 1_000_000
            }
        }),
        step_for(Seq::empty(), now, elapsed) is None,
{
    the_least_delay_counts(asks, asks.len() as int);
    assert(least(asks, asks.len() as int) == Some(asks[i]));
}

/// The delays that count are those of the windows that are on the screen, not minimised and want
/// to go on.
pub proof fn only_moving_windows_ask(s: Seq<Win>, wishes: Seq<Option<u64>>, n: int, d: u64)
    requires
        0 <= n <= s.len(),
        s.len() == wishes.len(),
    ensures
        asked_delays(s, wishes, n).contains(d) <==> exists|i: int|
            0 <= i < n && (#[trigger] s[i]).shown.mapped && !s[i].shown.minimized && wishes[i] == Some(
                d,
            ),
    decreases n,
{
    if n > 0 {
        only_moving_windows_ask(s, wishes, n - 1, d);
        let before = asked_delays(s, wishes, n - 1);
        let all = asked_delays(s, wishes, n);
        if before.contains(d) {
            let k = choose|k: int| 0 <= k < before.len() && before[k] == d;
            assert(all[k] == d);
        }
        if all.contains(d) && !before.contains(d) {
            let k = choose|k: int| 0 <= k < all.len() && all[k] == d;
            if k < before.len() {
                assert(before[k] == d);
            }
            assert(s[n - 1].shown.mapped && !s[n - 1].shown.minimized && wishes[n - 1] == Some(d));
        }
        if s[n - 1].shown.mapped && !s[n - 1].shown.minimized && wishes[n - 1] == Some(d) {
            assert(all[before.len() as int] == d);
        }
    }
}

/// When a frame is due, exactly the windows that are on the screen, not minimised and want to go
/// on ask for one.
pub proof fn moving_windows_are_drawn(s: Seq<Win>, wishes: Seq<Option<u64>>, i: int)
    requires
        0 <= i < s.len(),
        s.len() == wishes.len(),
    ensures
        moving_dirty(s, wishes).len() == s.len(),
        moving_dirty(s, wishes)[i].paint.needs_paint <==> s[i].paint.needs_paint || (
        s[i].shown.mapped && !s[i].shown.minimized && wishes[i] is Some),
        moving_dirty(s, wishes)[i].shown == s[i].shown,
        moving_dirty(s, wishes)[i].id == s[i].id,
{
}

/// The loop sleeps no shorter than asked, to the microsecond, and less than a millisecond longer;
/// where nothing is awaited, without end.
pub proof fn the_loop_does_not_wake_early(ns: u64)
    ensures
        poll_timeout(None) == -1,
        ({
            let ms = poll_timeout(Some(ns));
            &&& 0 <= ms <= i32::MAX
            &&& ms < i32::MAX ==> ns < ms * 1_000_000 + 1000
            &&& ms > 0 ==> (ms - 1) * 1_000_000 < ns
            &&& ns < 1000 ==> ms == 0
        }),
{
}

/// The sooner of two times is one of them and not after the other, in either order.
pub proof fn the_sooner_time_wins(a: Option<u64>, b: Option<u64>)
    ensures
        sooner(a, b) == sooner(b, a),
        sooner(a, b) == a || sooner(a, b) == b,
        sooner(a, b) is None <==> a is None && b is None,
        (sooner(a, b) matches Some(t) ==> (a matches Some(x) ==> t <= x)),
{
}

} // verus!
