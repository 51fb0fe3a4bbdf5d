//! A window's frame: its style, where it stands, and what its edges do when the frame is drawn by
//! the application itself.

use crate::config::{Backend, Renderer};
use crate::event::WindowOp;
use crate::geometry::Point;
use crate::text;
use vstd::prelude::*;

verus! {

/// An ordinary window's style.
pub const WS_OVERLAPPEDWINDOW: u32 = 0x00CF_0000;

/// An ordinary window's style without the sizing border and the maximize box.
pub const WS_FIXEDWINDOW: u32 = 0x00CA_0000;

/// The logical width of the edge by which a frameless window is resized.
pub const RESIZE_BORDER_LOGICAL: u32 = 8;

/// The style of a window.
pub fn window_style(resizable: bool) -> (r: u32)
    ensures
        r == (if resizable { WS_OVERLAPPEDWINDOW } else { WS_FIXEDWINDOW }),
{
    if resizable { WS_OVERLAPPEDWINDOW } else { WS_FIXEDWINDOW }
}

/// A resolution, 96 where the system does not say.
pub open spec fn dpi_or_default(dpi: u32) -> u32 {
    if dpi == 0 { 96 } else { dpi }
}

pub fn known_dpi(dpi: u32) -> (r: u32)
    ensures
        r == dpi_or_default(dpi),
{
    if dpi == 0 { 96 } else { dpi }
}

/// A window that came up on a screen of another resolution than it was sized for is sized again.
pub fn resize_for_dpi(assumed: u32, actual: u32) -> (r: bool)
    ensures
        r == (dpi_or_default(assumed) != dpi_or_default(actual)),
{
    known_dpi(assumed) != known_dpi(actual)
}

/// Where a window starts along one axis so that it stands in the middle of the screen.
pub fn centred(screen: i32, window: i32) -> (r: i32)
    requires
        0 <= screen,
        0 <= window,
    ensures
        screen >= window ==> r == (screen - window) / 2,
        screen < window ==> r == -((window - screen) / 2),
        -1 <= r - (screen - window - r) <= 1,
{
    if screen >= window {
        (screen - window) / 2
    } else {
        -((window - screen) / 2)
    }
}

/// The milliseconds of a window timer: at least one.
pub open spec fn timer_millis(ms: u128) -> u32 {
    if ms % 0x1_0000_0000 == 0 { 1 } else { (ms % 0x1_0000_0000) as u32 }
}

/// The window timers for the content's intervals: numbered from one, at least one millisecond
/// each.
pub fn timers(intervals_ms: &Vec<u128>) -> (r: Vec<(usize, u32)>)
    ensures
        r@ == Seq::new(
            intervals_ms@.len(),
            |i: int| ((i + 1) as usize, timer_millis(intervals_ms@[i])),
        ),
{
    let mut out: Vec<(usize, u32)> = Vec::new();
    let n: usize = intervals_ms.len();
    let mut i: usize = 0;
    while i < n
        invariant
            i <= n,
            n == intervals_ms@.len(),
            out@ == Seq::new(
                i as nat,
                |j: int| ((j + 1) as usize, timer_millis(intervals_ms@[j])),
            ),
        decreases n - i,
    {
        let low: u32 = (intervals_ms[i] % 0x1_0000_0000) as u32;
        let ms: u32 = if low == 0 { 1 } else { low };
        out.push((i + 1, ms));
        assert(out@ =~= Seq::new(
            (i + 1) as nat,
            |j: int| ((j + 1) as usize, timer_millis(intervals_ms@[j])),
        ));
        i += 1;
    }
    out
}

/// A timer's number leads back to its interval.
pub proof fn timer_numbers_lead_back(intervals_ms: Seq<u128>, i: int)
    requires
        0 <= i < intervals_ms.len() < usize::MAX,
    ensures
        ({
            let t = Seq::new(
                intervals_ms.len(),
                |k: int| ((k + 1) as usize, timer_millis(intervals_ms[k])),
            );
            t[i].0 - 1 == i && t[i].1 >= 1
        }),
{
}

/// How a window comes by its renderer.
#[derive(Clone, Copy, Debug, PartialEq, Eq, Structural)]
pub enum GpuPlan {
    /// A GPU is demanded and a remote session has none.
    Refuse,
    /// Try to make a device.
    Try,
    Software,
}

/// The variable that forces the GPU is set: neither empty nor `0`.
pub open spec fn forces_gpu(v: Option<Seq<char>>) -> bool {
    v matches Some(s) && s.len() > 0 && s != seq!['0']
}

pub fn env_forces_gpu(v: Option<&str>) -> (r: bool)
    ensures
        r == forces_gpu(
            match v {
                Some(s) => Some(s@),
                None => None,
            },
        ),
{
    match v {
        Some(s) => !s.is_empty() && !text::is_char(s, '0'),
        None => false,
    }
}

/// How a window comes by its renderer. The GPU is of no use in a remote session.
pub fn gpu_plan(renderer: Renderer, forced: bool, remote: bool) -> (r: GpuPlan)
    ensures
        r == (if renderer is Gpu && remote {
            GpuPlan::Refuse
        } else if (renderer.tries_gpu() || forced) && !remote {
            GpuPlan::Try
        } else {
            GpuPlan::Software
        }),
        remote ==> !(r is Try),
        r is Refuse ==> renderer is Gpu,
        renderer is Gpu ==> !(r is Software),
        renderer is Auto && !remote ==> r is Try,
        renderer is Software && !forced ==> r is Software,
{
    if renderer.requires_gpu() && remote {
        GpuPlan::Refuse
    } else if (renderer.wants_gpu() || forced) && !remote {
        GpuPlan::Try
    } else {
        GpuPlan::Software
    }
}

/// The renderer after a device was tried.
pub fn gpu_tried(renderer: Renderer, device: bool) -> (r: Backend)
    ensures
        r == (if device {
            Backend::Gpu
        } else if renderer is Gpu {
            Backend::Unavailable
        } else {
            (Backend::Software { fell_back: true })
        }),
        r is Gpu <==> device,
        renderer is Gpu ==> !(r is Software),
        !(renderer is Gpu) ==> !(r is Unavailable),
{
    if device {
        Backend::Gpu
    } else if renderer.requires_gpu() {
        Backend::Unavailable
    } else {
        Backend::Software { fell_back: true }
    }
}

/// What lies at a position of a window.
#[derive(Clone, Copy, Debug, PartialEq, Eq, Structural)]
pub enum Hit {
    Client,
    Caption,
    Left,
    Right,
    Top,
    TopLeft,
    TopRight,
    Bottom,
    BottomLeft,
    BottomRight,
}

impl Hit {
    /// The system's number.
    pub open spec fn number(self) -> int {
        match self {
            Hit::Client => 1,
            Hit::Caption => 2,
            Hit::Left => 10,
            Hit::Right => 11,
            Hit::Top => 12,
            Hit::TopLeft => 13,
            Hit::TopRight => 14,
            Hit::Bottom => 15,
            Hit::BottomLeft => 16,
            Hit::BottomRight => 17,
        }
    }

    pub fn code(self) -> (r: isize)
        ensures
            r == self.number(),
    {
        match self {
            Hit::Client => 1,
            Hit::Caption => 2,
            Hit::Left => 10,
            Hit::Right => 11,
            Hit::Top => 12,
            Hit::TopLeft => 13,
            Hit::TopRight => 14,
            Hit::Bottom => 15,
            Hit::BottomLeft => 16,
            Hit::BottomRight => 17,
        }
    }
}

/// The width of the resizing edge in physical pixels: eight logical pixels, four at the least.
pub fn resize_border(dpi: u32) -> (r: i32)
    requires
        dpi <= 0xFFFF,
    ensures
        r == (if dpi < 96 { 8 } else { dpi / 12 }),
        r >= 4,
        dpi >= 96 ==> 96 * r <= 8 * dpi < 96 * (r + 1),
        dpi <= 96 ==> r == 8,
{
    let d: u32 = if dpi < 96 { 96 } else { dpi };
    let m: i32 = (RESIZE_BORDER_LOGICAL * d / 96) as i32;
    assert(8 * d / 96 == d / 12);
    if m < 4 { 4 } else { m }
}

/// The edge or corner at a position, where there is one: a corner before an edge, left before
/// right, an upright edge before a level one.
pub open spec fn edge_at(x: i32, y: i32, w: i32, h: i32, m: i32) -> Option<Hit> {
    let left = x < m;
    let right = x >= w - m;
    let top = y < m;
    let bottom = y >= h - m;
    if top && left {
        Some(Hit::TopLeft)
    } else if top && right {
        Some(Hit::TopRight)
    } else if bottom && left {
        Some(Hit::BottomLeft)
    } else if bottom && right {
        Some(Hit::BottomRight)
    } else if left {
        Some(Hit::Left)
    } else if right {
        Some(Hit::Right)
    } else if top {
        Some(Hit::Top)
    } else if bottom {
        Some(Hit::Bottom)
    } else {
        None
    }
}

/// What lies at a position of a frameless window, as far as the frame decides: a control of the
/// content comes before the edges. Where the frame decides nothing, the content says whether the
/// window is dragged there.
pub fn frame_hit(interactive: bool, x: i32, y: i32, w: i32, h: i32, m: i32) -> (r: Option<Hit>)
    ensures
        r == (if interactive { Some(Hit::Client) } else { edge_at(x, y, w, h, m) }),
{
    if interactive {
        return Some(Hit::Client);
    }
    let left = x < m;
    let right = x as i64 >= w as i64 - m as i64;
    let top = y < m;
    let bottom = y as i64 >= h as i64 - m as i64;
    if top && left {
        Some(Hit::TopLeft)
    } else if top && right {
        Some(Hit::TopRight)
    } else if bottom && left {
        Some(Hit::BottomLeft)
    } else if bottom && right {
        Some(Hit::BottomRight)
    } else if left {
        Some(Hit::Left)
    } else if right {
        Some(Hit::Right)
    } else if top {
        Some(Hit::Top)
    } else if bottom {
        Some(Hit::Bottom)
    } else {
        None
    }
}

/// What lies at a position away from the edges.
pub fn inner_hit(drag: bool) -> (r: Hit)
    ensures
        r == (if drag { Hit::Caption } else { Hit::Client }),
{
    if drag { Hit::Caption } else { Hit::Client }
}

/// The sides of a rectangle on the screen.
#[derive(Clone, Copy, Debug, PartialEq, Eq, Structural)]
pub struct Sides {
    pub left: i32,
    pub top: i32,
    pub right: i32,
    pub bottom: i32,
}

/// The client area of a frameless window: the whole window, and within the border that hangs over
/// the screen's edges where it is maximized.
pub fn client_area(zoomed: bool, r: Sides, cx: i32, cy: i32) -> (out: Sides)
    requires
        i32::MIN <= r.left + cx <= i32::MAX,
        i32::MIN <= r.right - cx <= i32::MAX,
        i32::MIN <= r.top + cy <= i32::MAX,
        i32::MIN <= r.bottom - cy <= i32::MAX,
    ensures
        out == (if zoomed {
            Sides {
                left: (r.left + cx) as i32,
                top: (r.top + cy) as i32,
                right: (r.right - cx) as i32,
                bottom: (r.bottom - cy) as i32,
            }
        } else {
            r
        }),
        zoomed ==> out.left - r.left == cx && r.right - out.right == cx && out.top - r.top == cy
            && r.bottom - out.bottom == cy,
        !zoomed ==> out == r,
{
    if zoomed {
        Sides {
            left: r.left + cx,
            top: r.top + cy,
            right: r.right - cx,
            bottom: r.bottom - cy,
        }
    } else {
        r
    }
}

/// Where an input method shows what it composes.
#[derive(Clone, Copy, Debug, PartialEq, Eq, Structural)]
pub struct ImePlace {
    /// The height of its text.
    pub height: i32,
    /// The text goes where the caret is.
    pub text: Point,
    /// The candidates go below it.
    pub candidates: Point,
}

/// Where an input method shows what it composes, for a caret at a position with a height.
pub fn ime_place(caret: Option<(i32, i32, i32)>) -> (r: Option<ImePlace>)
    requires
        caret matches Some(c) ==> i32::MIN <= c.1 + c.2 <= i32::MAX,
    ensures
        r == (match caret {
            None => None,
            Some((x, y, h)) => Some(
                ImePlace {
                    height: h,
                    text: Point { x, y },
                    candidates: Point { x, y: (y + h) as i32 },
                },
            ),
        }),
        r is Some <==> caret is Some,
        r matches Some(p) ==> p.candidates.x == p.text.x && p.candidates.y == p.text.y + p.height
            && p.text.x == caret.unwrap().0 && p.text.y == caret.unwrap().1,
{
    match caret {
        None => None,
        Some((x, y, h)) => Some(
            ImePlace { height: h, text: Point { x, y }, candidates: Point { x, y: y + h } },
        ),
    }
}

/// How a window is shown.
#[derive(Clone, Copy, Debug, PartialEq, Eq, Structural)]
pub enum ShowCmd {
    Hide,
    Show,
    Minimize,
    Maximize,
    Restore,
}

/// What showing or hiding a window takes.
#[derive(Clone, Copy, Debug, PartialEq, Eq, Structural)]
pub struct ShowStep {
    pub cmd: Option<ShowCmd>,
    /// Bring the window to the front.
    pub foreground: bool,
    /// Tell the content that the window is there again.
    pub notify_shown: bool,
}

pub open spec fn just(cmd: ShowCmd) -> ShowStep {
    ShowStep { cmd: Some(cmd), foreground: false, notify_shown: false }
}

/// Showing a window and bringing it to the front: a minimized one is restored, and the content is
/// told where the window was hidden.
pub open spec fn shown_and_activated(visible: bool, iconic: bool) -> ShowStep {
    ShowStep {
        cmd: Some(if iconic { ShowCmd::Restore } else { ShowCmd::Show }),
        foreground: true,
        notify_shown: !visible,
    }
}

pub fn show_and_activate(visible: bool, iconic: bool) -> (r: ShowStep)
    ensures
        r == shown_and_activated(visible, iconic),
{
    ShowStep {
        cmd: Some(if iconic { ShowCmd::Restore } else { ShowCmd::Show }),
        foreground: true,
        notify_shown: !visible,
    }
}

/// What a window operation takes.
pub fn window_op(op: Option<WindowOp>, zoomed: bool, visible: bool, iconic: bool) -> (r: ShowStep)
    ensures
        r == (match op {
            None => ShowStep { cmd: None, foreground: false, notify_shown: false },
            Some(WindowOp::Minimize) => just(ShowCmd::Minimize),
            Some(WindowOp::ToggleMaximize) => just(
                if zoomed { ShowCmd::Restore } else { ShowCmd::Maximize },
            ),
            Some(WindowOp::Maximize) => just(ShowCmd::Maximize),
            Some(WindowOp::Restore) => just(ShowCmd::Restore),
            Some(WindowOp::Show) => shown_and_activated(visible, iconic),
            Some(WindowOp::Hide) => just(ShowCmd::Hide),
        }),
{
    let cmd = match op {
        None => return ShowStep { cmd: None, foreground: false, notify_shown: false },
        Some(WindowOp::Show) => return show_and_activate(visible, iconic),
        Some(WindowOp::Minimize) => ShowCmd::Minimize,
        Some(WindowOp::ToggleMaximize) => if zoomed {
            ShowCmd::Restore
        } else {
            ShowCmd::Maximize
        },
        Some(WindowOp::Maximize) => ShowCmd::Maximize,
        Some(WindowOp::Restore) => ShowCmd::Restore,
        Some(WindowOp::Hide) => ShowCmd::Hide,
    };
    ShowStep { cmd: Some(cmd), foreground: false, notify_shown: false }
}

/// A window wide enough has a border all round and nothing of it inside: a position is on an edge
/// exactly when it lies within the border's width of a side, or outside.
pub proof fn edges_lie_along_the_sides(x: i32, y: i32, w: i32, h: i32, m: i32)
    ensures
        edge_at(x, y, w, h, m) is None <==> m <= x < w - m && m <= y < h - m,
{
}

/// In a window wide enough each edge moves the sides that it names, and is where the point is
/// within the border of exactly those.
pub proof fn edges_name_their_sides(x: i32, y: i32, w: i32, h: i32, m: i32)
    requires
        0 <= m,
        2 * m <= w,
        2 * m <= h,
    ensures
        edge_at(x, y, w, h, m) matches Some(e) ==> {
            &&& (e is Left || e is TopLeft || e is BottomLeft) == (x < m)
            &&& (e is Right || e is TopRight || e is BottomRight) == (x >= w - m)
            &&& (e is Top || e is TopLeft || e is TopRight) == (y < m)
            &&& (e is Bottom || e is BottomLeft || e is BottomRight) == (y >= h - m)
            &&& !(e is Client) && !(e is Caption)
        },
{
}

/// The system's numbers of hits: the content is one and the title two, and the eight edges follow
/// from ten on, left and right, then the upper three and the lower three. No two are the same.
pub proof fn hits_have_their_own_numbers(a: Hit, b: Hit)
    ensures
        a.number() == b.number() ==> a == b,
        Hit::Client.number() == 1 && Hit::Caption.number() == 2,
        Hit::Left.number() == 10 && Hit::Right.number() == 11,
        Hit::Top.number() == 12 && Hit::Bottom.number() == 15,
        Hit::TopLeft.number() == Hit::Top.number() + 1 && Hit::TopRight.number()
            == Hit::Top.number() + 2,
        Hit::BottomLeft.number() == Hit::Bottom.number() + 1 && Hit::BottomRight.number()
            == Hit::Bottom.number() + 2,
{
}

/// An interval of a timer is kept to the millisecond, as long as the system can count it, but it
/// is never zero.
pub proof fn intervals_are_kept(ms: u128)
    ensures
        0 < ms < 0x1_0000_0000 ==> timer_millis(ms) == ms,
        timer_millis(0) == 1,
        timer_millis(ms) >= 1,
{
}

/// A resolution that the system gives is kept; without one the ordinary one is taken.
pub proof fn resolutions_are_kept(dpi: u32)
    ensures
        dpi > 0 ==> dpi_or_default(dpi) == dpi,
        dpi_or_default(0) == 96,
        dpi_or_default(dpi) > 0,
{
}

/// The variable forces the GPU whatever it holds, but for nothing at all and a single zero.
pub proof fn any_word_forces_the_gpu(s: Seq<char>)
    ensures
        !forces_gpu(None),
        forces_gpu(Some(s)) <==> s.len() >= 2 || (s.len() == 1 && s[0] != '0'),
{
    if s.len() == 1 && s[0] == '0' {
        assert(s =~= seq!['0']);
    }
    if s == seq!['0'] {
        assert(s.len() == 1 && s[0] == '0');
    }
}

/// A window that is shown comes to the front; it is restored where it is minimised, and its content
/// is told where it was out of sight.
pub proof fn shown_windows_come_to_the_front(visible: bool, iconic: bool)
    ensures
        ({
            let s = shown_and_activated(visible, iconic);
            &&& s.foreground
            &&& s.notify_shown == !visible
            &&& s.cmd == Some(ShowCmd::Restore) <==> iconic
            &&& s.cmd == Some(ShowCmd::Show) <==> !iconic
        }),
        forall|cmd: ShowCmd|
            (#[trigger] just(cmd)).cmd == Some(cmd) && !just(cmd).foreground && !just(cmd).notify_shown,
{
}

} // verus!
