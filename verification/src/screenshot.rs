//! Pictures of a window without a window: the input that is played back first and the frames that
//! are drawn.

use crate::config::{NewWindow, PointerHit, ScreenshotKey, WindowConfig};
use crate::event::{Key, KeyEvent, MouseButton, PointerKind};
use crate::geometry::{Color, Rect};
use crate::surface;
use crate::text;
use vstd::prelude::*;

verus! {

/// A hover is held this long, so that what appears with a delay is in the picture.
pub const HOVER_MS: u32 = 650;

/// Between the frames of an animation.
pub const SETTLE_MS: u32 = 300;

/// So many frames at the most are drawn while something moves.
pub const SETTLE_FRAMES: u32 = 4;

/// One step towards a picture. Positions are logical; the host scales them.
#[derive(Clone, Copy, Debug, PartialEq, Eq, Structural)]
pub enum Shot {
    /// Draw a whole frame.
    Frame,
    Pointer { kind: PointerKind, x: i32, y: i32, button: MouseButton },
    /// Report what the last press hit.
    ReportHit { x: i32, y: i32 },
    Key(KeyEvent),
    Sleep { ms: u32 },
}

/// A left-button event at a position.
pub open spec fn left(kind: PointerKind, x: i32, y: i32) -> Shot {
    Shot::Pointer { kind, x, y, button: MouseButton::Left }
}

/// A press of the right button, which may open a menu.
pub open spec fn right_click(at: Option<(i32, i32)>) -> Seq<Shot> {
    match at {
        None => Seq::empty(),
        Some((x, y)) => seq![
            Shot::Pointer { kind: PointerKind::Down, x, y, button: MouseButton::Right },
            Shot::Frame,
        ],
    }
}

/// One click.
pub open spec fn click(at: (i32, i32)) -> Seq<Shot> {
    seq![
        left(PointerKind::Down, at.0, at.1),
        Shot::ReportHit { x: at.0, y: at.1 },
        left(PointerKind::Up, at.0, at.1),
        Shot::Frame,
    ]
}

/// Clicks, one after the other, with a frame after each.
pub open spec fn clicks(at: Seq<(i32, i32)>) -> Seq<Shot>
    decreases at.len(),
{
    if at.len() == 0 {
        Seq::empty()
    } else {
        clicks(at.drop_last()) + click(at.last())
    }
}

/// A drag from one position to another.
pub open spec fn drag(way: Option<(i32, i32, i32, i32)>) -> Seq<Shot> {
    match way {
        None => Seq::empty(),
        Some((x0, y0, x1, y1)) => seq![
            left(PointerKind::Down, x0, y0),
            left(PointerKind::Move, x1, y1),
            left(PointerKind::Up, x1, y1),
            Shot::Frame,
        ],
    }
}

/// A typed character.
pub open spec fn typed(c: char) -> Shot {
    Shot::Key(
        KeyEvent {
            key: Key::Char(c),
            pressed: true,
            shift: false,
            ctrl: false,
            alt: false,
            meta: false,
        },
    )
}

/// One keyboard input: a key, or a text character by character, and a frame after it.
pub open spec fn key_input(k: ScreenshotKey) -> Seq<Shot> {
    match k {
        ScreenshotKey::Text(t) => Seq::new(t@.len(), |i: int| typed(t@[i])).push(Shot::Frame),
        ScreenshotKey::Key(ev) => seq![Shot::Key(ev), Shot::Frame],
    }
}

/// Keyboard inputs, one after the other.
pub open spec fn key_inputs(keys: Seq<ScreenshotKey>) -> Seq<Shot>
    decreases keys.len(),
{
    if keys.len() == 0 {
        Seq::empty()
    } else {
        key_inputs(keys.drop_last()) + key_input(keys.last())
    }
}

/// A hover that is held.
pub open spec fn hover(at: Option<(i32, i32)>) -> Seq<Shot> {
    match at {
        None => Seq::empty(),
        Some((x, y)) => seq![
            left(PointerKind::Move, x, y),
            Shot::Sleep { ms: HOVER_MS },
            Shot::Frame,
        ],
    }
}

/// Everything that is done before the picture is taken, up to the end of animations: a first frame,
/// which lays the content out, then the right click, the clicks, the drag, the keys and the hover.
pub open spec fn script<T, H>(cfg: WindowConfig<T, H>) -> Seq<Shot> {
    seq![Shot::Frame] + right_click(cfg.screenshot_rclick) + clicks(cfg.screenshot_clicks@) + drag(
        cfg.screenshot_drag,
    ) + key_inputs(cfg.screenshot_keys@) + hover(cfg.screenshot_hover)
}

fn push_left(out: &mut Vec<Shot>, kind: PointerKind, x: i32, y: i32)
    ensures
        final(out)@ == old(out)@.push(left(kind, x, y)),
{
    out.push(Shot::Pointer { kind, x, y, button: MouseButton::Left });
}

/// What is done before a picture of a window is taken.
pub fn offscreen_script<T, H>(cfg: &WindowConfig<T, H>) -> (r: Vec<Shot>)
    ensures
        r@ == script(*cfg),
{
    let mut out: Vec<Shot> = Vec::new();
    out.push(Shot::Frame);
    assert(out@ =~= seq![Shot::Frame]);
    let ghost before = out@;
    if let Some((x, y)) = cfg.screenshot_rclick {
        out.push(Shot::Pointer { kind: PointerKind::Down, x, y, button: MouseButton::Right });
        out.push(Shot::Frame);
    }
    assert(out@ =~= before + right_click(cfg.screenshot_rclick));
    let ghost before = out@;
    let n: usize = cfg.screenshot_clicks.len();
    let mut i: usize = 0;
    assert(out@ =~= before + clicks(cfg.screenshot_clicks@.take(0)));
    while i < n
        invariant
            i <= n,
            n == cfg.screenshot_clicks@.len(),
            out@ == before + clicks(cfg.screenshot_clicks@.take(i as int)),
        decreases n - i,
    {
        let (x, y) = cfg.screenshot_clicks[i];
        let ghost mid = out@;
        push_left(&mut out, PointerKind::Down, x, y);
        out.push(Shot::ReportHit { x, y });
        push_left(&mut out, PointerKind::Up, x, y);
        out.push(Shot::Frame);
        proof {
            let all = cfg.screenshot_clicks@;
            assert(all.take(i + 1).drop_last() =~= all.take(i as int));
            assert(out@ =~= mid + click(all[i as int]));
            assert(out@ =~= before + clicks(all.take(i + 1)));
        }
        i += 1;
    }
    assert(cfg.screenshot_clicks@.take(n as int) =~= cfg.screenshot_clicks@);
    let ghost before = out@;
    if let Some((x0, y0, x1, y1)) = cfg.screenshot_drag {
        push_left(&mut out, PointerKind::Down, x0, y0);
        push_left(&mut out, PointerKind::Move, x1, y1);
        push_left(&mut out, PointerKind::Up, x1, y1);
        out.push(Shot::Frame);
    }
    assert(out@ =~= before + drag(cfg.screenshot_drag));
    let ghost before = out@;
    push_keys(&mut out, &cfg.screenshot_keys);
    assert(out@ =~= before + key_inputs(cfg.screenshot_keys@));
    let ghost before = out@;
    if let Some((x, y)) = cfg.screenshot_hover {
        push_left(&mut out, PointerKind::Move, x, y);
        out.push(Shot::Sleep { ms: HOVER_MS });
        out.push(Shot::Frame);
    }
    assert(out@ =~= before + hover(cfg.screenshot_hover));
    out
}

fn push_keys(out: &mut Vec<Shot>, keys: &Vec<ScreenshotKey>)
    ensures
        final(out)@ == old(out)@ + key_inputs(keys@),
{
    let ghost before = out@;
    let n: usize = keys.len();
    let mut i: usize = 0;
    assert(out@ =~= before + key_inputs(keys@.take(0)));
    while i < n
        invariant
            i <= n,
            n == keys@.len(),
            out@ == before + key_inputs(keys@.take(i as int)),
        decreases n - i,
    {
        let ghost mid = out@;
        match &keys[i] {
            ScreenshotKey::Text(t) => {
                let ghost all = t@;
                assert(out@ =~= mid + Seq::new(0nat, |k: int| typed(all[k])));
                for c in it: t.as_str().chars()
                    invariant
                        it.seq() == all,
                        out@ == mid + Seq::new(it.index() as nat, |k: int| typed(all[k])),
                {
                    let ghost done = out@;
                    assert(c == all[it.index() as int]);
                    out.push(
                        Shot::Key(
                            KeyEvent {
                                key: Key::Char(c),
                                pressed: true,
                                shift: false,
                                ctrl: false,
                                alt: false,
                                meta: false,
                            },
                        ),
                    );
                    assert(out@ == done.push(typed(c)));
                    assert(out@ =~= mid + Seq::new(
                        (it.index() + 1) as nat,
                        |k: int| typed(all[k]),
                    ));
                }
            },
            ScreenshotKey::Key(ev) => {
                out.push(Shot::Key(*ev));
            },
        }
        out.push(Shot::Frame);
        proof {
            assert(keys@.take(i + 1).drop_last() =~= keys@.take(i as int));
            assert(out@ =~= mid + key_input(keys@[i as int]));
            assert(out@ =~= before + key_inputs(keys@.take(i + 1)));
        }
        i += 1;
    }
    assert(keys@.take(n as int) =~= keys@);
}

/// Another frame is drawn, after a pause, while something moves: four at the most.
pub fn settles(drawn: u32, wants_animation: bool) -> (r: bool)
    ensures
        r == (drawn < SETTLE_FRAMES && wants_animation),
{
    drawn < SETTLE_FRAMES && wants_animation
}

/// Every input is followed by a frame before the picture is taken: whatever is played back, the
/// last step is a frame.
pub proof fn the_picture_shows_the_input<T, H>(cfg: WindowConfig<T, H>)
    ensures
        script(cfg).len() > 0,
        script(cfg).last() == Shot::Frame,
        script(cfg)[0] == Shot::Frame,
{
    let a = seq![Shot::Frame] + right_click(cfg.screenshot_rclick);
    let b = a + clicks(cfg.screenshot_clicks@);
    let c = b + drag(cfg.screenshot_drag);
    let d = c + key_inputs(cfg.screenshot_keys@);
    assert(a.last() == Shot::Frame);
    if cfg.screenshot_clicks@.len() > 0 {
        assert(clicks(cfg.screenshot_clicks@).last() == Shot::Frame);
    }
    assert(b.last() == Shot::Frame);
    assert(c.last() == Shot::Frame);
    if cfg.screenshot_keys@.len() > 0 {
        assert(key_inputs(cfg.screenshot_keys@).last() == Shot::Frame);
    }
    assert(d.last() == Shot::Frame);
    assert(d[0] == Shot::Frame);
}

/// What is worth saying about a click that was played back.
#[derive(Clone, Copy, Debug, PartialEq, Eq, Structural)]
pub enum HitReport {
    Silent,
    /// The click hit nothing: the picture will look as if there had been none.
    Blank,
    /// The click hit a node that nobody reacts to.
    Ignored { node: u64, bounds: Rect },
    /// The click was taken; said only when asked for.
    Taken { node: u64, bounds: Rect },
}

pub fn hit_report(hit: Option<PointerHit>, trace: bool) -> (r: HitReport)
    ensures
        r == (match hit {
            None => HitReport::Silent,
            Some(h) => match h.node {
                None => HitReport::Blank,
                Some(node) => if !h.consumed {
                    HitReport::Ignored { node, bounds: h.bounds }
                } else if trace {
                    HitReport::Taken { node, bounds: h.bounds }
                } else {
                    HitReport::Silent
                },
            },
        }),
{
    match hit {
        None => HitReport::Silent,
        Some(h) => match h.node {
            None => HitReport::Blank,
            Some(node) => if !h.consumed {
                HitReport::Ignored { node, bounds: h.bounds }
            } else if trace {
                HitReport::Taken { node, bounds: h.bounds }
            } else {
                HitReport::Silent
            },
        },
    }
}

/// The variable that asks for every hit is set, and not to `0`.
pub fn trace_hits(v: Option<&str>) -> (r: bool)
    ensures
        r == (v matches Some(s) && s@ != seq!['0']),
{
    match v {
        None => false,
        Some(s) => !text::is_char(s, '0'),
    }
}

/// The buffer that pictures are drawn into.
pub struct Offscreen {
    pub pixmap: tiny_skia::Pixmap,
}

impl Offscreen {
    /// The buffer holds pixels to the last byte.
    pub open spec fn wf(self) -> bool {
        surface::whole_pixels(self.pixmap)
    }

    /// A transparent buffer; none where the size is zero or too large.
    pub fn new(w: u32, h: u32) -> (r: Option<Offscreen>)
        requires
            surface::addressable(w as int, h as int),
        ensures
            (r is Some) == (0 < w && 0 < h && w * 4 <= i32::MAX),
            r matches Some(o) ==> surface::pixmap_bytes(o.pixmap) == Seq::new(
                (w * h * 4) as nat,
                |i: int| 0u8,
            ) && surface::pixmap_width(o.pixmap) == w && surface::pixmap_height(o.pixmap) == h
                && o.wf(),
    {
        match surface::new_pixmap(w, h) {
            Some(pixmap) => Some(Offscreen { pixmap }),
            None => None,
        }
    }

    /// Prepares a frame: everything in the content's own background colour, or else in that of the
    /// window.
    pub fn begin_frame(&mut self, own: Option<Color>, window: Color)
        requires
            old(self).wf(),
        ensures
            final(self).wf(),
            ({
                let bg = match own {
                    Some(c) => c,
                    None => window,
                };
                surface::pixmap_bytes(final(self).pixmap) == surface::one_colour(
                    surface::pixmap_bytes(old(self).pixmap).len(),
                    bg,
                )
            }),
            surface::pixmap_width(final(self).pixmap) == surface::pixmap_width(old(self).pixmap),
            surface::pixmap_height(final(self).pixmap) == surface::pixmap_height(old(self).pixmap),
    {
        let bg = match own {
            Some(c) => c,
            None => window,
        };
        surface::clear(&mut self.pixmap, bg);
    }
}

/// The windows to create among new windows.
pub open spec fn created<C>(s: Seq<NewWindow<C>>) -> Seq<C>
    decreases s.len(),
{
    if s.len() == 0 {
        Seq::empty()
    } else {
        match s.last() {
            NewWindow::Create(c) => created(s.drop_last()).push(c),
            NewWindow::Focus(_) => created(s.drop_last()),
        }
    }
}

/// The windows that get a picture of their own: those that would be created.
pub fn children_of<C>(requests: Vec<NewWindow<C>>) -> (r: Vec<C>)
    ensures
        r@ == created(requests@),
{
    let ghost all = requests@;
    let mut out: Vec<C> = Vec::new();
    for w in it: requests.into_iter()
        invariant
            it.seq() == all,
            out@ == created(all.take(it.index() as int)),
    {
        assert(all.take(it.index() + 1).drop_last() =~= all.take(it.index() as int));
        match w {
            NewWindow::Create(c) => out.push(c),
            NewWindow::Focus(_) => {},
        }
        assert(out@ =~= created(all.take(it.index() + 1)));
    }
    assert(all.take(all.len() as int) =~= all);
    out
}

/// Clicks come in their order, four steps each: the left button goes down at the place, what it hit
/// is reported, the button comes up at the same place, and a frame is drawn.
pub proof fn clicks_come_in_order(at: Seq<(i32, i32)>, i: int)
    requires
        0 <= i < at.len(),
    ensures
        ({
            let s = clicks(at);
            let (x, y) = at[i];
            &&& s.len() == 4 * at.len()
            &&& s[4 * i] == (Shot::Pointer {
                kind: PointerKind::Down,
                x,
                y,
                button: MouseButton::Left,
            })
            &&& s[4 * i + 1] == (Shot::ReportHit { x, y })
            &&& s[4 * i + 2] == (Shot::Pointer {
                kind: PointerKind::Up,
                x,
                y,
                button: MouseButton::Left,
            })
            &&& s[4 * i + 3] is Frame
        }),
    decreases at.len(),
{
    let init = at.drop_last();
    if i < init.len() {
        clicks_come_in_order(init, i);
        assert(init[i] == at[i]);
    } else {
        clicks_len(init);
    }
    let before = clicks(init);
    assert(clicks(at) == before + click(at.last()));
    clicks_len(at);
}

proof fn clicks_len(at: Seq<(i32, i32)>)
    ensures
        clicks(at).len() == 4 * at.len(),
    decreases at.len(),
{
    if at.len() > 0 {
        clicks_len(at.drop_last());
    }
}

/// A drag goes down where it begins, moves to where it ends and comes up there; a right click goes
/// down at its place; a hover moves to its place and waits. A frame ends each, and what is not
/// asked for takes no step.
pub proof fn gestures_keep_their_places(x0: i32, y0: i32, x1: i32, y1: i32)
    ensures
        ({
            let d = drag(Some((x0, y0, x1, y1)));
            &&& d.len() == 4 && d[3] is Frame
            &&& d[0] == (Shot::Pointer {
                kind: PointerKind::Down,
                x: x0,
                y: y0,
                button: MouseButton::Left,
            })
            &&& d[1] == (Shot::Pointer {
                kind: PointerKind::Move,
                x: x1,
                y: y1,
                button: MouseButton::Left,
            })
            &&& d[2] == (Shot::Pointer {
                kind: PointerKind::Up,
                x: x1,
                y: y1,
                button: MouseButton::Left,
            })
        }),
        ({
            let r = right_click(Some((x0, y0)));
            &&& r.len() == 2 && r[1] is Frame
            &&& r[0] == (Shot::Pointer {
                kind: PointerKind::Down,
                x: x0,
                y: y0,
                button: MouseButton::Right,
            })
        }),
        ({
            let h = hover(Some((x0, y0)));
            &&& h.len() == 3 && h[2] is Frame
            &&& h[0] == (Shot::Pointer {
                kind: PointerKind::Move,
                x: x0,
                y: y0,
                button: MouseButton::Left,
            })
            &&& h[1] == (Shot::Sleep { ms: 650 })
        }),
        drag(None).len() == 0 && right_click(None).len() == 0 && hover(None).len() == 0,
{
}

/// A text is typed character by character, each pressed without modifiers, and a key as it is; a
/// frame follows either. Inputs follow each other.
pub proof fn keys_are_played_in_order(
    keys: Seq<ScreenshotKey>,
    more: ScreenshotKey,
    t: String,
    ev: KeyEvent,
    i: int,
)
    requires
        0 <= i < t@.len(),
    ensures
        key_inputs(keys.push(more)) == key_inputs(keys) + key_input(more),
        key_inputs(Seq::empty()).len() == 0,
        key_input(ScreenshotKey::Text(t)).len() == t@.len() + 1,
        key_input(ScreenshotKey::Text(t))[i] matches Shot::Key(k) && k.key == Key::Char(t@[i])
            && k.pressed && !k.shift && !k.ctrl && !k.alt && !k.meta,
        key_input(ScreenshotKey::Text(t)).last() is Frame,
        key_input(ScreenshotKey::Key(ev)) == seq![Shot::Key(ev), Shot::Frame],
{
    assert(keys.push(more).drop_last() =~= keys);
    assert(keys.push(more).last() == more);
}

/// The order in which input is played back: the right click right after the first frame, the clicks
/// behind it, the drag behind them, the keys behind that, and the hover at the very end.
pub proof fn input_is_played_in_turn<T, H>(cfg: WindowConfig<T, H>)
    ensures
        ({
            let s = script(cfg);
            let r = if cfg.screenshot_rclick is Some { 2int } else { 0 };
            let c = 4 * cfg.screenshot_clicks@.len();
            let d = if cfg.screenshot_drag is Some { 4int } else { 0 };
            let k = key_inputs(cfg.screenshot_keys@).len();
            let h = if cfg.screenshot_hover is Some { 3int } else { 0 };
            &&& s.len() == 1 + r + c + d + k + h
            &&& s.subrange(1, 1 + r) == right_click(cfg.screenshot_rclick)
            &&& s.subrange(1 + r, 1 + r + c) == clicks(cfg.screenshot_clicks@)
            &&& s.subrange(1 + r + c, 1 + r + c + d) == drag(cfg.screenshot_drag)
            &&& s.subrange(1 + r + c + d, 1 + r + c + d + k) == key_inputs(cfg.screenshot_keys@)
            &&& s.skip(1 + r + c + d + k) == hover(cfg.screenshot_hover)
        }),
{
    let s = script(cfg);
    let r = if cfg.screenshot_rclick is Some { 2int } else { 0 };
    let c = 4 * cfg.screenshot_clicks@.len();
    let d = if cfg.screenshot_drag is Some { 4int } else { 0 };
    let k = key_inputs(cfg.screenshot_keys@).len();
    clicks_len(cfg.screenshot_clicks@);
    assert(s.subrange(1, 1 + r) =~= right_click(cfg.screenshot_rclick));
    assert(s.subrange(1 + r, 1 + r + c) =~= clicks(cfg.screenshot_clicks@));
    assert(s.subrange(1 + r + c, 1 + r + c + d) =~= drag(cfg.screenshot_drag));
    assert(s.subrange(1 + r + c + d, 1 + r + c + d + k) =~= key_inputs(cfg.screenshot_keys@));
    assert(s.skip(1 + r + c + d + k) =~= hover(cfg.screenshot_hover));
}

/// The windows to create are taken out in their order, and the ones to bring to the front are left
/// out.
pub proof fn created_windows_keep_their_order<C>(s: Seq<NewWindow<C>>, c: C, key: String)
    ensures
        created(s.push(NewWindow::Create(c))) == created(s).push(c),
        created(s.push(NewWindow::Focus(key))) == created(s),
        created(Seq::<NewWindow<C>>::empty()).len() == 0,
{
    assert(s.push(NewWindow::Create(c)).drop_last() =~= s);
    assert(s.push(NewWindow::Focus(key)).drop_last() =~= s);
}

} // verus!
