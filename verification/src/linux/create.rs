//! Creating a window: where it goes, what its properties say, and its entry in the table.

use super::timers;
use super::window::{
    self, ClickTracker, PaintState, PointerState, ShowState, Timer, Win, Windows,
};
use crate::event::CursorShape;
use crate::geometry::Color;
use crate::text;
use vstd::prelude::*;

verus! {

/// A rectangle on the root window.
#[derive(Clone, Copy, Debug, PartialEq, Eq, Structural)]
pub struct RootRect {
    pub x: i32,
    pub y: i32,
    pub w: i32,
    pub h: i32,
}

/// What a new window is to be like; sizes are in physical pixels.
#[derive(Clone, Copy, Debug, PartialEq, Eq, Structural)]
pub struct NewWin {
    pub w: i32,
    pub h: i32,
    pub min_w: i32,
    pub min_h: i32,
    pub bg: Color,
    pub centered: bool,
    pub resizable: bool,
    pub frameless: bool,
    pub modal: bool,
    pub owner: Option<u32>,
}

/// A size.
#[derive(Clone, Copy, Debug, PartialEq, Eq, Structural)]
pub struct Extent {
    pub w: i32,
    pub h: i32,
}

/// What the host asks of the server for a new window.
#[derive(Clone, Copy, Debug, PartialEq, Eq, Structural)]
pub struct CreatePlan {
    pub x: i32,
    pub y: i32,
    pub w: i32,
    pub h: i32,
    /// The background pixel, which the server shows before the first frame.
    pub background: u32,
    /// Tell the window manager that the position is meant.
    pub positioned: bool,
    pub min_size: Option<Extent>,
    pub max_size: Option<Extent>,
    /// Ask for no decorations.
    pub undecorated: bool,
    /// A dialog rather than a normal window.
    pub dialog: bool,
    pub transient_for: Option<u32>,
    /// Announce the modal state.
    pub modal: bool,
}

/// Half of a number, rounded towards zero.
pub open spec fn half(n: int) -> int {
    if n >= 0 { n / 2 } else { -((-n) / 2) }
}

/// A colour as a pixel value.
pub open spec fn pixel(c: Color) -> int {
    c.r * 0x10000 + c.g * 0x100 + c.b
}

/// The plan for a new window. It is centred on its owner, or on the screen; a fixed size is
/// told as both bounds; an owned window is a dialog of its owner.
pub open spec fn plan_for(n: NewWin, over: RootRect) -> CreatePlan {
    CreatePlan {
        x: if n.centered { (over.x + half(over.w - n.w)) as i32 } else { 0 },
        y: if n.centered { (over.y + half(over.h - n.h)) as i32 } else { 0 },
        w: n.w,
        h: n.h,
        background: pixel(n.bg) as u32,
        positioned: n.centered,
        min_size: if !n.resizable {
            Some(Extent { w: n.w, h: n.h })
        } else if n.min_w > 0 || n.min_h > 0 {
            Some(
                Extent {
                    w: if n.min_w < 0 { 0 } else { n.min_w },
                    h: if n.min_h < 0 { 0 } else { n.min_h },
                },
            )
        } else {
            None
        },
        max_size: if n.resizable { None } else { Some(Extent { w: n.w, h: n.h }) },
        undecorated: n.frameless,
        dialog: n.owner is Some,
        transient_for: n.owner,
        modal: n.modal && n.owner is Some,
    }
}

/// The rectangle that a new window is centred on: its owner's, where it is known, else the
/// screen's.
pub open spec fn centred_on(owner_frame: Option<RootRect>, screen_w: i32, screen_h: i32) -> RootRect {
    match owner_frame {
        Some(f) => f,
        None => RootRect { x: 0, y: 0, w: screen_w, h: screen_h },
    }
}

fn halved(n: i64) -> (r: i64)
    ensures
        r == half(n as int),
{
    if n >= 0 {
        n / 2
    } else if n == i64::MIN {
        -0x4000_0000_0000_0000
    } else {
        -((-n) / 2)
    }
}

/// Plans a new window.
pub fn plan_window(n: NewWin, owner_frame: Option<RootRect>, screen_w: i32, screen_h: i32) -> (r:
    CreatePlan)
    requires
        ({
            let over = centred_on(owner_frame, screen_w, screen_h);
            n.centered ==> i32::MIN <= over.x + half(over.w - n.w) <= i32::MAX && i32::MIN <= over.y
                + half(over.h - n.h) <= i32::MAX
        }),
    ensures
        r == plan_for(n, centred_on(owner_frame, screen_w, screen_h)),
{
    let over = match owner_frame {
        Some(f) => f,
        None => RootRect { x: 0, y: 0, w: screen_w, h: screen_h },
    };
    let mut x: i32 = 0;
    let mut y: i32 = 0;
    if n.centered {
        x = (over.x as i64 + halved(over.w as i64 - n.w as i64)) as i32;
        y = (over.y as i64 + halved(over.h as i64 - n.h as i64)) as i32;
    }
    let fixed = Extent { w: n.w, h: n.h };
    let min_size = if !n.resizable {
        Some(fixed)
    } else if n.min_w > 0 || n.min_h > 0 {
        let w: i32 = if n.min_w < 0 { 0 } else { n.min_w };
        let h: i32 = if n.min_h < 0 { 0 } else { n.min_h };
        Some(Extent { w, h })
    } else {
        None
    };
    let background: u32 = n.bg.r as u32 * 0x10000 + n.bg.g as u32 * 0x100 + n.bg.b as u32;
    CreatePlan {
        x,
        y,
        w: n.w,
        h: n.h,
        background,
        positioned: n.centered,
        min_size,
        max_size: if n.resizable {
            None
        } else {
            Some(fixed)
        },
        undecorated: n.frameless,
        dialog: n.owner.is_some(),
        transient_for: n.owner,
        modal: n.modal && n.owner.is_some(),
    }
}

/// The entry of a new window: nothing is drawn, shown or pressed yet.
pub open spec fn fresh_win(w: Win, id: u32, n: NewWin, single: Option<String>) -> bool {
    &&& w.id == id
    &&& w.frameless == n.frameless
    &&& w.resizable == n.resizable
    &&& w.single == single
    &&& w.owner == n.owner
    &&& w.modal == (n.modal && n.owner is Some)
    &&& w.w == n.w && w.h == n.h
    &&& w.pixmap is None
    &&& w.paint == (PaintState { fresh: true, needs_paint: true, exposed: None })
    &&& w.shown == (ShowState { mapped: false, hidden: false, maximized: false, minimized: false })
    &&& w.pointer == (PointerState {
        click: (ClickTracker { time: 0, x: 0, y: 0, button: 0, count: 0 }),
        pending_drag: None,
        swallow_up: false,
        capturing: false,
    })
    &&& w.cursor == CursorShape::Arrow
    &&& !w.composing
}

/// The timers of a new window: none shorter than the shortest period, each first due one period
/// from now.
pub open spec fn timers_started(periods: Seq<u64>, now: u64) -> Seq<Timer> {
    Seq::new(
        periods.len(),
        |i: int|
            {
                let p = if periods[i] < timers::MIN_PERIOD { timers::MIN_PERIOD } else { periods[i] };
                Timer { period: p, due: (now + p) as u64 }
            },
    )
}

/// Enters a new window at the end of the table. Its id is new there, and its owner, if it has
/// one, is in it.
pub fn register(
    windows: &mut Windows,
    id: u32,
    n: NewWin,
    single: Option<String>,
    periods: &[u64],
    now: u64,
)
    requires
        old(windows).wf(),
        !old(windows).has(id),
        n.owner matches Some(o) ==> old(windows).has(o),
        now + timers::MIN_PERIOD <= u64::MAX,
        forall|i: int| 0 <= i < periods@.len() ==> now + (#[trigger] periods@[i]) <= u64::MAX,
    ensures
        final(windows).wf(),
        final(windows).list@.len() == old(windows).list@.len() + 1,
        final(windows).list@.drop_last() == old(windows).list@,
        fresh_win(final(windows).list@.last(), id, n, single),
        final(windows).list@.last().intervals@ == timers_started(periods@, now),
{
    let mut intervals: Vec<Timer> = Vec::new();
    let mut i: usize = 0;
    while i < periods.len()
        invariant
            i <= periods@.len(),
            intervals@.len() == i,
            now + timers::MIN_PERIOD <= u64::MAX,
            forall|j: int| 0 <= j < periods@.len() ==> now + (#[trigger] periods@[j]) <= u64::MAX,
            forall|j: int|
                0 <= j < i ==> #[trigger] intervals@[j] == timers_started(periods@, now)[j],
        decreases periods@.len() - i,
    {
        intervals.push(timers::start_timer(periods[i], now));
        i += 1;
    }
    assert(intervals@ =~= timers_started(periods@, now));
    let ghost s = windows.list@;
    let w = Win {
        id,
        frameless: n.frameless,
        resizable: n.resizable,
        single,
        owner: n.owner,
        modal: n.modal && n.owner.is_some(),
        w: n.w,
        h: n.h,
        pixmap: None,
        paint: PaintState { fresh: true, needs_paint: true, exposed: None },
        shown: ShowState { mapped: false, hidden: false, maximized: false, minimized: false },
        pointer: PointerState {
            click: ClickTracker::default(),
            pending_drag: None,
            swallow_up: false,
            capturing: false,
        },
        intervals,
        cursor: CursorShape::Arrow,
        composing: false,
    };
    windows.list.push(w);
    proof {
        let t = windows.list@;
        window::position_finds(s, id);
        assert(t.drop_last() =~= s);
        assert forall|a: int, b: int| 0 <= a < b < t.len() implies (#[trigger] t[a]).id != (
        #[trigger] t[b]).id by {
            if b == s.len() {
                assert(s[a].id != id);
            } else {
                assert(s[a].id != s[b].id);
            }
        }
        assert forall|a: int| 0 <= a < t.len() implies ((#[trigger] t[a]).owner matches Some(o)
            ==> window::known_before(t, o, a)) by {
            if let Some(o) = t[a].owner {
                if a < s.len() {
                    assert(s[a].owner == Some(o));
                    let j = choose|j: int| 0 <= j < a && (#[trigger] s[j]).id == o;
                    assert(t[j].id == o);
                } else {
                    window::position_finds(s, o);
                    assert(t[window::position(s, o)].id == o);
                }
            }
        }
        assert forall|a: int| 0 <= a < t.len() && (#[trigger] t[a]).modal implies t[a].owner is Some by {
            if a < s.len() {
                assert(s[a].modal ==> s[a].owner is Some);
            }
        }
        assert forall|a: int| 0 <= a < t.len() implies ((#[trigger] t[a]).paint.exposed matches Some(
            r,
        ) ==> window::exposure_bounds(r)) by {
            if a < s.len() {
                assert(s[a].paint.exposed matches Some(r) ==> window::exposure_bounds(r));
            }
        }
    }
}

/// The owner of a window that a callback of `opener` opens: only an owned or modal window has
/// one, and only while the opener is there.
pub fn owner_for(windows: &Windows, opener: u32, owned: bool, modal: bool) -> (r: Option<u32>)
    ensures
        r == (if (owned || modal) && windows.has(opener) { Some(opener) } else { None }),
        r matches Some(o) ==> o == opener && windows.has(o),
        !owned && !modal ==> r is None,
{
    if (owned || modal) && windows.idx(opener).is_some() {
        Some(opener)
    } else {
        None
    }
}

/// An icon as the window manager wants it: width, height, and one number a pixel, alpha in the
/// highest byte.
pub open spec fn argb(px: Seq<u8>) -> int {
    px[3] * 0x1000000 + px[0] * 0x10000 + px[1] * 0x100 + px[2]
}

/// One size of an icon: its width and height, then its whole pixels from straight RGBA bytes.
pub open spec fn icon_words(w: u32, h: u32, rgba: Seq<u8>) -> Seq<u32> {
    seq![w, h] + Seq::new(
        (rgba.len() / 4) as nat,
        |i: int| argb(rgba.subrange(i * 4, i * 4 + 4)) as u32,
    )
}

/// Appends one size of an icon.
pub fn push_icon(out: &mut Vec<u32>, w: u32, h: u32, rgba: &[u8])
    ensures
        final(out)@ == old(out)@ + icon_words(w, h, rgba@),
{
    let ghost before = out@;
    out.push(w);
    out.push(h);
    let len: usize = rgba.len();
    let n: usize = len / 4;
    let mut i: usize = 0;
    assert(out@ =~= before + icon_words(w, h, rgba@).take(2));
    while i < n
        invariant
            i <= n,
            len == rgba@.len(),
            n == len / 4,
            out@ == before + icon_words(w, h, rgba@).take(2 + i),
        decreases n - i,
    {
        let at: usize = i * 4;
        let a: u32 = rgba[at + 3] as u32;
        let r: u32 = rgba[at] as u32;
        let g: u32 = rgba[at + 1] as u32;
        let b: u32 = rgba[at + 2] as u32;
        let word: u32 = a * 0x1000000 + r * 0x10000 + g * 0x100 + b;
        out.push(word);
        proof {
            let all = icon_words(w, h, rgba@);
            let px = rgba@.subrange(i * 4, i * 4 + 4);
            assert(px[0] == r && px[1] == g && px[2] == b && px[3] == a);
            assert(all[2 + i] == word);
            assert(all.take(2 + i + 1) =~= all.take(2 + i).push(word));
            assert(out@ =~= before + all.take(2 + i + 1));
        }
        i += 1;
    }
    assert(icon_words(w, h, rgba@).take(2 + n) =~= icon_words(w, h, rgba@));
}

/// The class of a program: its name with a capital ASCII first letter.
pub open spec fn class_of(inst: Seq<char>) -> Seq<char> {
    if inst.len() > 0 { inst.update(0, text::ascii_upper(inst[0])) } else { inst }
}

/// The instance and class by which windows are grouped: the program's name, and the same with a
/// capital first letter.
pub fn wm_class(exe_stem: Option<String>) -> (r: (String, String))
    ensures
        r.0@ == (match exe_stem {
            Some(s) => s@,
            None => "windui"@,
        }),
        r.1@ == class_of(r.0@),
{
    let inst = match exe_stem {
        Some(s) => s,
        None => "windui".to_owned(),
    };
    let mut chars = text::chars_of(inst.as_str());
    if chars.len() > 0 {
        let first: char = chars[0];
        chars[0] = text::to_ascii_upper(first);
    }
    let class = text::string_of(&chars);
    assert(class@ =~= class_of(inst@));
    (inst, class)
}

/// A centred window leaves as much room on either side of it as on the other, to a pixel, over
/// its owner or the screen; it is as large as asked for.
pub proof fn centred_windows_are_in_the_middle(n: NewWin, over: RootRect)
    requires
        n.centered,
        i32::MIN <= over.x + half(over.w - n.w) <= i32::MAX,
        i32::MIN <= over.y + half(over.h - n.h) <= i32::MAX,
    ensures
        ({
            let p = plan_for(n, over);
            let left = p.x - over.x;
            let right = (over.x + over.w) - (p.x + p.w);
            let above = p.y - over.y;
            let below = (over.y + over.h) - (p.y + p.h);
            &&& -1 <= left - right <= 1
            &&& -1 <= above - below <= 1
            &&& p.positioned
            &&& p.w == n.w && p.h == n.h
        }),
{
}

/// Half of a number and half of its opposite are opposite, and twice the half is the number or one
/// less far from zero.
pub proof fn halves_round_towards_zero(n: int)
    ensures
        half(-n) == -half(n),
        n >= 0 ==> 2 * half(n) == n || 2 * half(n) + 1 == n,
        n <= 0 ==> 2 * half(n) == n || 2 * half(n) - 1 == n,
{
}

/// A window that is not to be resized has one size, which is its smallest and its largest; one
/// that is has no largest. Without decorations and as a dialog it is as it was asked for, and
/// only an owned window is modal.
pub proof fn plans_follow_the_wishes(n: NewWin, over: RootRect)
    ensures
        ({
            let p = plan_for(n, over);
            &&& !n.resizable ==> p.min_size == p.max_size && p.max_size == Some(
                Extent { w: p.w, h: p.h },
            )
            &&& n.resizable ==> p.max_size is None
            &&& n.resizable ==> (p.min_size is Some <==> n.min_w > 0 || n.min_h > 0)
            &&& n.resizable ==> (p.min_size matches Some(e) ==> 0 <= e.w && 0 <= e.h && (n.min_w
                >= 0 ==> e.w == n.min_w) && (n.min_h >= 0 ==> e.h == n.min_h))
            &&& p.undecorated == n.frameless
            &&& p.transient_for == n.owner && p.dialog == p.transient_for is Some
            &&& p.modal ==> p.dialog
            &&& n.modal && n.owner is Some ==> p.modal
            &&& !n.modal ==> !p.modal
            &&& p.positioned == n.centered
            &&& !n.centered ==> p.x == 0 && p.y == 0
        }),
{
}

/// The four bytes of a number, the highest first.
proof fn bytes_of_a_number(a: int, b: int, c: int, d: int)
    requires
        0 <= a < 0x100,
        0 <= b < 0x100,
        0 <= c < 0x100,
        0 <= d < 0x100,
    ensures
        ({
            let v = a * 0x100_0000 + b * 0x1_0000 + c * 0x100 + d;
            &&& 0 <= v <= 0xffff_ffff
            &&& v / 0x100_0000 == a
            &&& v / 0x1_0000 == a * 0x100 + b
            &&& v / 0x1_0000 % 0x100 == b
            &&& v / 0x100 % 0x100 == c
            &&& v % 0x100 == d
        }),
{
    let v = a * 0x100_0000 + b * 0x1_0000 + c * 0x100 + d;
    assert(v / 0x100 == a * 0x1_0000 + b * 0x100 + c);
    assert(v / 0x1_0000 == a * 0x100 + b);
}

/// The background that the server shows is the window's own: red, green and blue can be read back
/// from its number.
pub proof fn backgrounds_keep_their_colour(n: NewWin, over: RootRect)
    ensures
        plan_for(n, over).background / 0x1_0000 == n.bg.r,
        plan_for(n, over).background / 0x100 % 0x100 == n.bg.g,
        plan_for(n, over).background % 0x100 == n.bg.b,
{
    bytes_of_a_number(0, n.bg.r as int, n.bg.g as int, n.bg.b as int);
    assert(plan_for(n, over).background == pixel(n.bg));
}

/// The channels of a pixel of an icon can be read back from its number: alpha the highest byte,
/// then red, green and blue.
pub proof fn icons_keep_their_colours(w: u32, h: u32, rgba: Seq<u8>, i: int)
    requires
        0 <= i,
        4 * i + 3 < rgba.len(),
    ensures
        ({
            let words = icon_words(w, h, rgba);
            let word = words[i + 2];
            &&& words.len() == 2 + rgba.len() as int / 4
            &&& words[0] == w && words[1] == h
            &&& word / 0x100_0000 == rgba[4 * i + 3]
            &&& word / 0x1_0000 % 0x100 == rgba[4 * i]
            &&& word / 0x100 % 0x100 == rgba[4 * i + 1]
            &&& word % 0x100 == rgba[4 * i + 2]
        }),
{
    let px = rgba.subrange(i * 4, i * 4 + 4);
    assert(px[0] == rgba[4 * i] && px[1] == rgba[4 * i + 1] && px[2] == rgba[4 * i + 2] && px[3]
        == rgba[4 * i + 3]);
    bytes_of_a_number(px[3] as int, px[0] as int, px[1] as int, px[2] as int);
    assert(icon_words(w, h, rgba)[i + 2] == argb(px));
}

/// The timers of a new window keep the period that was asked for, if it is ten milliseconds or
/// more, and are first due when one period has passed.
pub proof fn new_timers_wait_a_period(periods: Seq<u64>, now: u64, i: int)
    requires
        0 <= i < periods.len(),
        now + periods[i] <= u64::MAX,
        now + 10_000_000 <= u64::MAX,
    ensures
        ({
            let t = timers_started(periods, now)[i];
            &&& timers_started(periods, now).len() == periods.len()
            &&& t.due == now + t.period
            &&& t.period >= 10_000_000
            &&& periods[i] >= 10_000_000 ==> t.period == periods[i]
            &&& periods[i] < 10_000_000 ==> t.period == 10_000_000
        }),
{
}

/// The class is the name with its first letter in capitals: nothing but the case of that letter
/// differs.
pub proof fn the_class_is_the_name(inst: Seq<char>)
    ensures
        class_of(inst).len() == inst.len(),
        text::same_ignoring_ascii_case(class_of(inst), inst),
        forall|i: int| 1 <= i < inst.len() ==> #[trigger] class_of(inst)[i] == inst[i],
        inst.len() > 0 ==> !('a' <= class_of(inst)[0] <= 'z'),
{
    assert forall|i: int| 0 <= i < inst.len() implies text::ascii_lower(
        #[trigger] class_of(inst)[i],
    ) == text::ascii_lower(inst[i]) by {
        text::letters_have_two_cases(inst[i]);
    }
}

/// A new window is centred on its owner where that is on the screen, and on the whole screen
/// otherwise.
pub proof fn owners_come_before_the_screen(frame: RootRect, screen_w: i32, screen_h: i32)
    ensures
        centred_on(Some(frame), screen_w, screen_h) == frame,
        ({
            let screen = centred_on(None, screen_w, screen_h);
            screen.x == 0 && screen.y == 0 && screen.w == screen_w && screen.h == screen_h
        }),
{
}

/// A new window is nowhere to be seen and asks for its first frame, which is a whole one; nothing
/// is pressed in it, and it is modal only if it has an owner.
pub proof fn new_windows_start_afresh(w: Win, id: u32, n: NewWin, single: Option<String>)
    requires
        fresh_win(w, id, n, single),
    ensures
        w.id == id && w.w == n.w && w.h == n.h && w.single == single && w.owner == n.owner,
        w.frameless == n.frameless && w.resizable == n.resizable,
        w.modal ==> n.modal && w.owner is Some,
        n.modal && n.owner is Some ==> w.modal,
        !w.shown.mapped && !w.shown.hidden && !w.shown.minimized && !w.shown.maximized,
        w.paint.needs_paint && w.paint.fresh && w.paint.exposed is None && w.pixmap is None,
        w.pointer.pending_drag is None && !w.pointer.swallow_up && !w.pointer.capturing,
        !w.composing,
        forall|time: u32, x: i32, y: i32, button: u8, slop: i32|
            (#[trigger] w.pointer.click.pressed(time, x, y, button, slop)).count == 1,
{
}

} // verus!
