//! When the next frame is due.

use vstd::prelude::*;

verus! {

/// A frame is put off no longer than this.
pub const MAX_FRAME_DELAY_MS: u128 = 5000;

/// Frames at least as frequent as this need the fine timer.
pub const HIRES_MAX_MS: u128 = 32;

/// The milliseconds of a frame at a screen's refresh rate: sixty hertz where the screen does not
/// say, and sixty at the most.
pub open spec fn interval_of(hz: i32) -> int {
    if hz <= 1 || hz > 60 {
        16
    } else {
        1000int / (hz as int)
    }
}

/// The milliseconds of a frame of one window.
pub fn window_frame_interval_ms(hz: i32) -> (r: u128)
    ensures
        r == interval_of(hz),
        16 <= r <= 500,
{
    let fps: u32 = if hz <= 1 || hz > 60 {
        60
    } else {
        hz as u32
    };
    assert(16 <= 1000u32 / fps && 1000u32 / fps <= 500) by (nonlinear_arith)
        requires
            2 <= fps <= 60,
    ;
    (1000 / fps) as u128
}

/// The shortest interval of the windows; sixty hertz without any.
pub open spec fn shortest(rates: Seq<i32>) -> int
    decreases rates.len(),
{
    if rates.len() == 0 {
        16
    } else if rates.len() == 1 {
        interval_of(rates[0])
    } else {
        let rest = shortest(rates.drop_last());
        if interval_of(rates.last()) < rest { interval_of(rates.last()) } else { rest }
    }
}

/// The milliseconds of a frame: those of the quickest screen that a window is on.
pub fn frame_interval_ms(rates: &Vec<i32>) -> (r: u128)
    ensures
        r == shortest(rates@),
        16 <= r <= 500,
{
    let n: usize = rates.len();
    if n == 0 {
        return 16;
    }
    let mut best: u128 = window_frame_interval_ms(rates[0]);
    let mut i: usize = 1;
    assert(rates@.take(1) =~= seq![rates@[0]]);
    while i < n
        invariant
            1 <= i <= n,
            n == rates@.len(),
            best == shortest(rates@.take(i as int)),
            16 <= best <= 500,
        decreases n - i,
    {
        let ms: u128 = window_frame_interval_ms(rates[i]);
        assert(rates@.take(i + 1).drop_last() =~= rates@.take(i as int));
        if ms < best {
            best = ms;
        }
        i += 1;
    }
    assert(rates@.take(n as int) =~= rates@);
    best
}

/// The interval that all windows share, measured anew when their number changes.
pub struct Pacer {
    pub windows: usize,
    pub frame_ms: u128,
}

impl Pacer {
    pub fn new(rates: &Vec<i32>) -> (r: Pacer)
        ensures
            r.windows == rates@.len(),
            r.frame_ms == shortest(rates@),
    {
        Pacer { windows: rates.len(), frame_ms: frame_interval_ms(rates) }
    }

    /// Measures again where the number of windows changed.
    pub fn refresh(&mut self, rates: &Vec<i32>)
        ensures
            final(self).windows == rates@.len(),
            final(self).frame_ms == (if rates@.len() == old(self).windows {
                old(self).frame_ms as int
            } else {
                shortest(rates@)
            }),
    {
        if rates.len() != self.windows {
            self.windows = rates.len();
            self.frame_ms = frame_interval_ms(rates);
        }
    }
}

/// A window that is shown and moves.
pub fn animates(visible: bool, iconic: bool, wants_animation: bool) -> (r: bool)
    ensures
        r == (visible && !iconic && wants_animation),
{
    visible && !iconic && wants_animation
}

/// The least of the delays that the windows ask for; zero without any.
pub open spec fn least(asks: Seq<u128>) -> u128
    decreases asks.len(),
{
    if asks.len() == 0 {
        0
    } else if asks.len() == 1 {
        asks[0]
    } else {
        let rest = least(asks.drop_last());
        if asks.last() < rest { asks.last() } else { rest }
    }
}

/// When the next frame is due, after the last one.
pub open spec fn due_after(frame_ms: u128, asks: Seq<u128>) -> u128 {
    let ask = if least(asks) > MAX_FRAME_DELAY_MS { MAX_FRAME_DELAY_MS } else { least(asks) };
    if ask > frame_ms { ask } else { frame_ms }
}

/// How the loop waits for the next frame.
#[derive(Clone, Copy, Debug, PartialEq, Eq, Structural)]
pub struct Wait {
    /// The frame is due this long after the last one.
    pub due: u128,
    /// The fine timer is needed.
    pub hires: bool,
    /// Wait for messages at most this long.
    pub ms: u32,
}

/// How the loop waits while windows move: a frame at most as often as the screen shows one, and
/// otherwise as soon as the most pressing window asks.
pub fn wait_for_frame(frame_ms: u128, asks: &Vec<u128>, elapsed: u128) -> (r: Wait)
    ensures
        r.due == due_after(frame_ms, asks@),
        r.hires == (r.due <= HIRES_MAX_MS),
        r.ms == (if elapsed >= r.due {
            0
        } else if r.due - elapsed > u32::MAX {
            u32::MAX as int
        } else {
            r.due - elapsed
        }),
        r.ms < u32::MAX ==> elapsed + r.ms >= r.due,
        r.ms > 0 ==> elapsed + r.ms <= r.due,
{
    let n: usize = asks.len();
    let mut ask: u128 = 0;
    if n > 0 {
        ask = asks[0];
        let mut i: usize = 1;
        assert(asks@.take(1) =~= seq![asks@[0]]);
        while i < n
            invariant
                1 <= i <= n,
                n == asks@.len(),
                ask == least(asks@.take(i as int)),
            decreases n - i,
        {
            assert(asks@.take(i + 1).drop_last() =~= asks@.take(i as int));
            if asks[i] < ask {
                ask = asks[i];
            }
            i += 1;
        }
        assert(asks@.take(n as int) =~= asks@);
    }
    if ask > MAX_FRAME_DELAY_MS {
        ask = MAX_FRAME_DELAY_MS;
    }
    let due: u128 = if ask > frame_ms { ask } else { frame_ms };
    let left: u128 = if elapsed >= due { 0 } else { due - elapsed };
    let ms: u32 = if left > u32::MAX as u128 { u32::MAX } else { left as u32 };
    Wait { due, hires: due <= HIRES_MAX_MS, ms }
}

/// The frames of the message loop, on a clock in milliseconds.
pub struct FrameLoop {
    pub pacer: Pacer,
    /// When the last frame was drawn, or the last message handled while nothing moved.
    pub last: u128,
    /// The fine timer is held.
    pub hires: bool,
}

/// What the loop does next.
#[derive(Clone, Copy, Debug, PartialEq, Eq, Structural)]
pub enum LoopWait {
    /// Nothing moves: wait for a message, and handle it.
    Block,
    /// Wait for messages at most so long, handle those that are there, and draw the moving windows
    /// if so much time has passed since the last frame.
    Frame { ms: u32, due: u128 },
}

impl FrameLoop {
    pub fn new(rates: &Vec<i32>, now: u128) -> (r: FrameLoop)
        ensures
            r.pacer.windows == rates@.len(),
            r.pacer.frame_ms == shortest(rates@),
            r.last == now,
            !r.hires,
    {
        FrameLoop { pacer: Pacer::new(rates), last: now, hires: false }
    }

    /// The milliseconds since the last frame.
    pub open spec fn elapsed(self, now: u128) -> u128 {
        if now >= self.last { (now - self.last) as u128 } else { 0 }
    }

    /// The interval after the windows were looked at again.
    pub open spec fn interval(self, rates: Seq<i32>) -> int {
        if rates.len() == self.pacer.windows {
            self.pacer.frame_ms as int
        } else {
            shortest(rates)
        }
    }

    /// A turn of the loop begins: `rates` are the refresh rates of the open windows, and `asks` the
    /// delays that the moving ones ask for.
    pub fn turn(&mut self, rates: &Vec<i32>, asks: &Vec<u128>, now: u128) -> (r: LoopWait)
        ensures
            final(self).pacer.windows == rates@.len(),
            final(self).pacer.frame_ms == old(self).interval(rates@),
            final(self).last == old(self).last,
            asks@.len() == 0 ==> r == LoopWait::Block && !final(self).hires,
            asks@.len() > 0 ==> {
                let due = due_after(final(self).pacer.frame_ms, asks@);
                let passed = old(self).elapsed(now);
                &&& final(self).hires == (due <= HIRES_MAX_MS)
                &&& r == (LoopWait::Frame {
                    due,
                    ms: if passed >= due {
                        0
                    } else if due - passed > u32::MAX {
                        u32::MAX
                    } else {
                        (due - passed) as u32
                    },
                })
            },
    {
        self.pacer.refresh(rates);
        if asks.len() == 0 {
            self.hires = false;
            return LoopWait::Block;
        }
        let passed: u128 = if now >= self.last { now - self.last } else { 0 };
        let w = wait_for_frame(self.pacer.frame_ms, asks, passed);
        self.hires = w.hires;
        LoopWait::Frame { ms: w.ms, due: w.due }
    }

    /// The wait is over: says whether the moving windows are drawn now.
    pub fn frame_due(&self, due: u128, now: u128) -> (r: bool)
        ensures
            r == (self.elapsed(now) >= due),
    {
        let passed: u128 = if now >= self.last { now - self.last } else { 0 };
        passed >= due
    }

    /// The windows were drawn, or a message was handled while nothing moved: the next frame counts
    /// from here.
    pub fn restart(&mut self, now: u128)
        ensures
            *final(self) == (FrameLoop { last: now, ..*old(self) }),
    {
        self.last = now;
    }
}

/// Half a blink of the caret: none where it does not blink, and the default where the system does
/// not say. Nothing blinks where the application wants no animation.
pub fn caret_blink(animations: Option<bool>, system_ms: u32, default_ms: u32) -> (r: Option<u32>)
    ensures
        r == (if animations == Some(false) || system_ms == u32::MAX {
            None
        } else if system_ms == 0 {
            Some(default_ms)
        } else {
            Some(system_ms)
        }),
{
    if let Some(false) = animations {
        return None;
    }
    if system_ms == u32::MAX {
        None
    } else if system_ms == 0 {
        Some(default_ms)
    } else {
        Some(system_ms)
    }
}

/// Whether things move: as the application says, else as the system says; a picture is taken as
/// if the system allowed it. A system that does not answer allows it.
pub fn animations_enabled(wish: Option<bool>, screenshot: bool, system: Option<bool>) -> (r: bool)
    ensures
        r == (match wish {
            Some(w) => w,
            None => screenshot || (match system {
                Some(s) => s,
                None => true,
            }),
        }),
{
    match wish {
        Some(w) => w,
        None => screenshot || (match system {
            Some(s) => s,
            None => true,
        }),
    }
}

/// Frames come no sooner than the screen shows them, and a moving window waits no longer than the
/// limit.
pub proof fn frames_keep_the_pace(frame_ms: u128, asks: Seq<u128>)
    requires
        frame_ms <= MAX_FRAME_DELAY_MS,
    ensures
        frame_ms <= due_after(frame_ms, asks) <= MAX_FRAME_DELAY_MS,
{
}

/// Two frames are never closer together than the screen shows them: a frame that is due comes at
/// least the interval after the one before.
pub proof fn frames_keep_their_distance(l: FrameLoop, asks: Seq<u128>, now: u128)
    requires
        0 < l.pacer.frame_ms,
        l.elapsed(now) >= due_after(l.pacer.frame_ms, asks),
    ensures
        now - l.last >= l.pacer.frame_ms,
{
}

/// No window waits longer than it asked for, unless the screen cannot show a frame so soon.
pub proof fn the_most_pressing_window_decides(frame_ms: u128, asks: Seq<u128>, i: int)
    requires
        0 <= i < asks.len(),
    ensures
        due_after(frame_ms, asks) <= frame_ms || due_after(frame_ms, asks) <= asks[i],
{
    least_is_least(asks, i);
}

proof fn least_is_least(asks: Seq<u128>, i: int)
    requires
        0 <= i < asks.len(),
    ensures
        least(asks) <= asks[i],
    decreases asks.len(),
{
    if asks.len() > 1 && i < asks.len() - 1 {
        least_is_least(asks.drop_last(), i);
    }
}

/// The interval is the time of one frame, in whole milliseconds: as many fit into a second as the
/// screen shows, and no longer interval does. A screen that says nothing, or that is quicker than
/// sixty hertz, counts as one of sixty.
pub proof fn a_second_holds_the_frames(hz: i32)
    ensures
        2 <= hz <= 60 ==> interval_of(hz) * hz <= 1000 && (interval_of(hz) + 1) * hz > 1000,
        hz < 2 || hz > 60 ==> interval_of(hz) == interval_of(60),
        interval_of(60) == 16,
{
    if 2 <= hz <= 60 {
        let d = hz as int;
        assert((1000int / d) * d <= 1000 && (1000int / d + 1) * d > 1000) by (nonlinear_arith)
            requires
                2 <= d,
        ;
    }
    assert(1000int / 60int == 16);
}

/// The windows share the interval of the quickest screen among theirs: it is one of their
/// intervals, and none is shorter.
pub proof fn the_quickest_screen_decides(rates: Seq<i32>, i: int)
    requires
        0 <= i < rates.len(),
    ensures
        shortest(rates) <= interval_of(rates[i]),
        exists|j: int| 0 <= j < rates.len() && shortest(rates) == interval_of(#[trigger] rates[j]),
        shortest(Seq::empty()) == interval_of(60),
    decreases rates.len(),
{
    assert(1000int / 60int == 16);
    if rates.len() > 1 {
        let init = rates.drop_last();
        if i < init.len() {
            the_quickest_screen_decides(init, i);
        } else {
            the_quickest_screen_decides(init, 0);
        }
        let j = choose|j: int| 0 <= j < init.len() && shortest(init) == interval_of(#[trigger] init[j]);
        assert(init[j] == rates[j]);
        if interval_of(rates.last()) < shortest(init) {
            assert(shortest(rates) == interval_of(rates[rates.len() - 1]));
        } else {
            assert(shortest(rates) == interval_of(rates[j]));
        }
    } else {
        assert(shortest(rates) == interval_of(rates[0]));
    }
}

/// The next frame is due after the least of the delays, where that is between the screen's
/// interval and five seconds, and at the nearer of the two otherwise.
pub proof fn the_least_delay_decides(frame_ms: u128, asks: Seq<u128>, i: int)
    requires
        0 <= i < asks.len(),
        forall|j: int| 0 <= j < asks.len() ==> asks[i] <= #[trigger] asks[j],
        frame_ms <= 5000,
    ensures
        frame_ms <= asks[i] <= 5000 ==> due_after(frame_ms, asks) == asks[i],
        asks[i] < frame_ms ==> due_after(frame_ms, asks) == frame_ms,
        asks[i] > 5000 ==> due_after(frame_ms, asks) == 5000,
        due_after(frame_ms, Seq::empty()) == frame_ms,
{
    least_is_least(asks, i);
    least_is_one(asks);
    let k = choose|k: int| 0 <= k < asks.len() && least(asks) == #[trigger] asks[k];
    assert(asks[i] <= asks[k]);
}

proof fn least_is_one(asks: Seq<u128>)
    requires
        asks.len() > 0,
    ensures
        exists|k: int| 0 <= k < asks.len() && least(asks) == #[trigger] asks[k],
    decreases asks.len(),
{
    if asks.len() == 1 {
        assert(least(asks) == asks[0]);
    } else {
        let init = asks.drop_last();
        least_is_one(init);
        let k = choose|k: int| 0 <= k < init.len() && least(init) == #[trigger] init[k];
        assert(init[k] == asks[k]);
        if asks.last() < least(init) {
            assert(least(asks) == asks[asks.len() - 1]);
        }
    }
}

/// Time passes from the last frame on; a clock that went back counts as standing still. The
/// interval is measured anew exactly when the number of windows changed.
pub proof fn time_counts_from_the_last_frame(l: FrameLoop, now: u128, rates: Seq<i32>)
    ensures
        now >= l.last ==> l.elapsed(now) + l.last == now,
        now < l.last ==> l.elapsed(now) == 0,
        rates.len() != l.pacer.windows ==> l.interval(rates) == shortest(rates),
        rates.len() == l.pacer.windows ==> l.interval(rates) == l.pacer.frame_ms,
{
}

} // verus!
