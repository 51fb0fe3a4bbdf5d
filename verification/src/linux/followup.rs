//! What follows an event once the content has dealt with it.

use super::session::{self, Session};
use super::window::Win;
use crate::event::{CursorShape, HotkeyOp, WindowOp};
use crate::text;
use vstd::prelude::*;

verus! {

/// A window that the content asked for: one to create, by its place in the host's list, or one
/// to bring to the front.
pub enum Opening {
    Create { index: usize, owned: bool, modal: bool },
    Focus(String),
}

/// What the content of a window asks for after an event.
pub struct Intents {
    pub op: Option<WindowOp>,
    /// A native dialog is to be run.
    pub dialog: bool,
    pub close: bool,
    pub title: Option<String>,
    pub hotkey_ops: Vec<(usize, HotkeyOp)>,
    pub openings: Vec<Opening>,
    pub cursor: CursorShape,
    /// The text caret: its place and height.
    pub caret: Option<(i32, i32, i32)>,
}

/// One thing for the host to do.
pub enum FollowUp {
    /// Put the input method's candidates here.
    Spot { x: i32, y: i32 },
    Title(String),
    Hotkey { id: usize, op: HotkeyOp },
    Cursor(usize),
    Op(WindowOp),
    Dialog,
    Create { index: usize, owner: Option<u32> },
    Focus(String),
    Close,
    /// Draw the other windows again if a shared value changed. The question is put only now: what
    /// went before may have changed one.
    Broadcast,
}

/// One thing for the host to do, with its texts.
pub enum FollowUpView {
    Spot { x: int, y: int },
    Title(Seq<char>),
    Hotkey { id: usize, op: HotkeyOp },
    Cursor(int),
    Op(WindowOp),
    Dialog,
    Create { index: usize, owner: Option<u32> },
    Focus(Seq<char>),
    Close,
    Broadcast,
}

impl View for FollowUp {
    type V = FollowUpView;

    open spec fn view(&self) -> FollowUpView {
        match self {
            FollowUp::Spot { x, y } => FollowUpView::Spot { x: *x as int, y: *y as int },
            FollowUp::Title(s) => FollowUpView::Title(s@),
            FollowUp::Hotkey { id, op } => FollowUpView::Hotkey { id: *id, op: *op },
            FollowUp::Cursor(i) => FollowUpView::Cursor(*i as int),
            FollowUp::Op(op) => FollowUpView::Op(*op),
            FollowUp::Dialog => FollowUpView::Dialog,
            FollowUp::Create { index, owner } => FollowUpView::Create {
                index: *index,
                owner: *owner,
            },
            FollowUp::Focus(s) => FollowUpView::Focus(s@),
            FollowUp::Close => FollowUpView::Close,
            FollowUp::Broadcast => FollowUpView::Broadcast,
        }
    }
}

/// The views of a sequence of things to do.
pub open spec fn views(s: Seq<FollowUp>) -> Seq<FollowUpView> {
    Seq::new(s.len(), |i: int| s[i]@)
}

/// The place of a cursor shape in the host's table.
pub open spec fn cursor_place(s: CursorShape) -> int {
    match s {
        CursorShape::Arrow => 0,
        CursorShape::Hand => 1,
        CursorShape::Text => 2,
        CursorShape::SizeWE => 3,
        CursorShape::SizeNS => 4,
    }
}

pub fn cursor_index(s: CursorShape) -> (r: usize)
    ensures
        r == cursor_place(s),
        r < 5,
{
    match s {
        CursorShape::Arrow => 0,
        CursorShape::Hand => 1,
        CursorShape::Text => 2,
        CursorShape::SizeWE => 3,
        CursorShape::SizeNS => 4,
    }
}

/// One thing to do, or nothing.
pub open spec fn maybe(on: bool, v: FollowUpView) -> Seq<FollowUpView> {
    if on { seq![v] } else { Seq::empty() }
}

/// The changes of hot keys.
pub open spec fn hotkey_follow_ups(ops: Seq<(usize, HotkeyOp)>) -> Seq<FollowUpView> {
    Seq::new(ops.len(), |i: int| FollowUpView::Hotkey { id: ops[i].0, op: ops[i].1 })
}

/// The windows to open; an owned or modal one belongs to `id`.
pub open spec fn opening_follow_ups(s: Seq<Opening>, id: u32) -> Seq<FollowUpView> {
    Seq::new(
        s.len(),
        |i: int|
            match s[i] {
                Opening::Create { index, owned, modal } => FollowUpView::Create {
                    index,
                    owner: if owned || modal { Some(id) } else { None },
                },
                Opening::Focus(key) => FollowUpView::Focus(key@),
            },
    )
}

/// What follows an event on window `id`, in order. The title and the cursor are settled before
/// the window changes, a dialog runs before windows open, and the window closes last but for
/// the others' frames, about which the host asks at the very end.
pub open spec fn follow_ups(w: Win, i: Intents) -> Seq<FollowUpView> {
    maybe(
        i.caret is Some,
        FollowUpView::Spot { x: i.caret.unwrap().0 as int, y: i.caret.unwrap().1 + i.caret.unwrap().2 },
    ) + maybe(i.title is Some, FollowUpView::Title(i.title.unwrap()@)) + hotkey_follow_ups(
        i.hotkey_ops@,
    ) + maybe(i.cursor != w.cursor, FollowUpView::Cursor(cursor_place(i.cursor))) + maybe(
        i.op is Some,
        FollowUpView::Op(i.op.unwrap()),
    ) + maybe(i.dialog, FollowUpView::Dialog) + opening_follow_ups(i.openings@, w.id) + maybe(
        i.close,
        FollowUpView::Close,
    ) + seq![FollowUpView::Broadcast]
}

fn push(out: &mut Vec<FollowUp>, f: FollowUp)
    ensures
        views(final(out)@) == views(old(out)@) + seq![f@],
{
    out.push(f);
    assert(views(out@) =~= views(old(out)@) + seq![f@]);
}

impl Session {
    /// What follows an event on a window, in order; the window's cursor is remembered. An
    /// unknown window has no follow-up.
    pub fn after_event(&mut self, id: u32, intents: Intents) -> (r: Vec<FollowUp>)
        requires
            old(self).wf(),
            intents.caret matches Some(c) ==> i32::MIN <= c.1 + c.2 <= i32::MAX,
        ensures
            final(self).wf(),
            ({
                let s = old(self).windows.list@;
                let w = session::win(s, id);
                if session::known(s, id) {
                    &&& views(r@) == follow_ups(w, intents)
                    &&& old(self).with_table(
                        *final(self),
                        session::with_win(s, id, Win { cursor: intents.cursor, ..w }),
                    )
                } else {
                    r@.len() == 0 && old(self).with_table(*final(self), s)
                }
            }),
            final(self).alt_down == old(self).alt_down,
    {
        let mut out: Vec<FollowUp> = Vec::new();
        let i: usize = match self.windows.idx(id) {
            Some(i) => i,
            None => {
                return out;
            },
        };
        let ghost s = self.windows.list@;
        let ghost w = s[i as int];
        let ghost all = intents;
        assert(views(out@) =~= Seq::empty());
        let changed = intents.cursor != self.windows.list[i].cursor;
        self.set_cursor(id, intents.cursor);
        if let Some((x, y, h)) = intents.caret {
            push(&mut out, FollowUp::Spot { x, y: y + h });
        }
        let ghost p0 = views(out@);
        assert(p0 =~= maybe(
            all.caret is Some,
            FollowUpView::Spot {
                x: all.caret.unwrap().0 as int,
                y: all.caret.unwrap().1 + all.caret.unwrap().2,
            },
        ));
        if let Some(t) = intents.title {
            push(&mut out, FollowUp::Title(t));
        }
        let ghost p1 = views(out@);
        assert(p1 =~= p0 + maybe(all.title is Some, FollowUpView::Title(all.title.unwrap()@)));
        let mut k: usize = 0;
        assert(p1 =~= p1 + hotkey_follow_ups(all.hotkey_ops@).take(0));
        while k < intents.hotkey_ops.len()
            invariant
                k <= intents.hotkey_ops@.len(),
                intents.hotkey_ops == all.hotkey_ops,
                views(out@) == p1 + hotkey_follow_ups(all.hotkey_ops@).take(k as int),
            decreases intents.hotkey_ops@.len() - k,
        {
            let hid: usize = intents.hotkey_ops[k].0;
            let op = intents.hotkey_ops[k].1;
            push(&mut out, FollowUp::Hotkey { id: hid, op });
            assert(views(out@) =~= p1 + hotkey_follow_ups(all.hotkey_ops@).take(k + 1));
            k += 1;
        }
        let ghost p2 = views(out@);
        assert(p2 =~= p1 + hotkey_follow_ups(all.hotkey_ops@));
        if changed {
            push(&mut out, FollowUp::Cursor(cursor_index(intents.cursor)));
        }
        let ghost p3 = views(out@);
        assert(p3 =~= p2 + maybe(
            all.cursor != w.cursor,
            FollowUpView::Cursor(cursor_place(all.cursor)),
        ));
        if let Some(op) = intents.op {
            push(&mut out, FollowUp::Op(op));
        }
        let ghost p4 = views(out@);
        assert(p4 =~= p3 + maybe(all.op is Some, FollowUpView::Op(all.op.unwrap())));
        if intents.dialog {
            push(&mut out, FollowUp::Dialog);
        }
        let ghost p5 = views(out@);
        assert(p5 =~= p4 + maybe(all.dialog, FollowUpView::Dialog));
        push_openings(&mut out, &intents.openings, id);
        let ghost p6 = views(out@);
        if intents.close {
            push(&mut out, FollowUp::Close);
        }
        let ghost p7 = views(out@);
        assert(p7 =~= p6 + maybe(all.close, FollowUpView::Close));
        push(&mut out, FollowUp::Broadcast);
        assert(views(out@) =~= follow_ups(w, all));
        out
    }
}

fn push_openings(out: &mut Vec<FollowUp>, openings: &Vec<Opening>, id: u32)
    ensures
        views(final(out)@) == views(old(out)@) + opening_follow_ups(openings@, id),
{
    let ghost p = views(out@);
    let ghost all = opening_follow_ups(openings@, id);
    let mut k: usize = 0;
    assert(p =~= p + all.take(0));
    while k < openings.len()
        invariant
            k <= openings@.len(),
            all == opening_follow_ups(openings@, id),
            views(out@) == p + all.take(k as int),
        decreases openings@.len() - k,
    {
        let f = match &openings[k] {
            Opening::Create { index, owned, modal } => FollowUp::Create {
                index: *index,
                owner: if *owned || *modal {
                    Some(id)
                } else {
                    None
                },
            },
            Opening::Focus(key) => FollowUp::Focus(key.clone()),
        };
        assert(f@ == all[k as int]);
        push(out, f);
        assert(views(out@) =~= p + all.take(k + 1));
        k += 1;
    }
    assert(all.take(k as int) =~= all);
}

/// When a thing is done, among those that follow one event.
pub open spec fn turn(f: FollowUpView) -> int {
    match f {
        FollowUpView::Spot { .. } => 0,
        FollowUpView::Title(_) => 1,
        FollowUpView::Hotkey { .. } => 2,
        FollowUpView::Cursor(_) => 3,
        FollowUpView::Op(_) => 4,
        FollowUpView::Dialog => 5,
        FollowUpView::Create { .. } => 6,
        FollowUpView::Focus(_) => 6,
        FollowUpView::Close => 7,
        FollowUpView::Broadcast => 8,
    }
}

#[verifier::opaque]
spec fn in_turn(s: Seq<FollowUpView>, from: int, to: int) -> bool {
    &&& forall|i: int, j: int|
        0 <= i < j < s.len() ==> turn(#[trigger] s[i]) <= turn(#[trigger] s[j])
    &&& forall|i: int| 0 <= i < s.len() ==> from <= turn(#[trigger] s[i]) <= to
}

proof fn in_turn_one_after_the_other(
    a: Seq<FollowUpView>,
    b: Seq<FollowUpView>,
    from: int,
    mid: int,
    to: int,
)
    requires
        in_turn(a, from, mid),
        in_turn(b, mid, to),
        from <= mid <= to,
    ensures
        in_turn(a + b, from, to),
{
    reveal(in_turn);
    let s = a + b;
    assert forall|i: int, j: int| 0 <= i < j < s.len() implies turn(#[trigger] s[i]) <= turn(
        #[trigger] s[j],
    ) by {
        if j < a.len() {
            assert(s[i] == a[i] && s[j] == a[j]);
        } else if i < a.len() {
            assert(s[i] == a[i] && s[j] == b[j - a.len()]);
        } else {
            assert(s[i] == b[i - a.len()] && s[j] == b[j - a.len()]);
        }
    }
    assert forall|i: int| 0 <= i < s.len() implies from <= turn(#[trigger] s[i]) <= to by {
        if i < a.len() {
            assert(s[i] == a[i]);
        } else {
            assert(s[i] == b[i - a.len()]);
        }
    }
}

proof fn in_either(a: Seq<FollowUpView>, b: Seq<FollowUpView>, f: FollowUpView)
    ensures
        (a + b).contains(f) <==> a.contains(f) || b.contains(f),
{
    if a.contains(f) {
        let i = choose|i: int| 0 <= i < a.len() && a[i] == f;
        assert((a + b)[i] == f);
    }
    if b.contains(f) {
        let i = choose|i: int| 0 <= i < b.len() && b[i] == f;
        assert((a + b)[a.len() + i] == f);
    }
    if (a + b).contains(f) {
        let i = choose|i: int| 0 <= i < (a + b).len() && (a + b)[i] == f;
        if i < a.len() {
            assert(a[i] == f);
        } else {
            assert(b[i - a.len()] == f);
        }
    }
}

proof fn in_maybe(on: bool, v: FollowUpView, f: FollowUpView)
    ensures
        maybe(on, v).contains(f) <==> on && f == v,
{
    if on {
        assert(maybe(on, v)[0] == v);
    }
}

/// Things are done in turn: the caret, the title and the hot keys, then the cursor, what becomes
/// of the window, a dialog, new windows, and last the window itself closes; the question about
/// the other windows comes at the very end, and once.
pub proof fn things_are_done_in_turn(w: Win, i: Intents)
    ensures
        ({
            let s = follow_ups(w, i);
            &&& forall|a: int, b: int|
                0 <= a < b < s.len() ==> turn(#[trigger] s[a]) <= turn(#[trigger] s[b])
            &&& s.len() > 0 && s.last() is Broadcast
            &&& forall|a: int| 0 <= a < s.len() - 1 ==> !(#[trigger] s[a] is Broadcast)
        }),
{
    let s0 = maybe(
        i.caret is Some,
        FollowUpView::Spot { x: i.caret.unwrap().0 as int, y: i.caret.unwrap().1 + i.caret.unwrap().2 },
    );
    let s1 = maybe(i.title is Some, FollowUpView::Title(i.title.unwrap()@));
    let s2 = hotkey_follow_ups(i.hotkey_ops@);
    let s3 = maybe(i.cursor != w.cursor, FollowUpView::Cursor(cursor_place(i.cursor)));
    let s4 = maybe(i.op is Some, FollowUpView::Op(i.op.unwrap()));
    let s5 = maybe(i.dialog, FollowUpView::Dialog);
    let s6 = opening_follow_ups(i.openings@, w.id);
    let s7 = maybe(i.close, FollowUpView::Close);
    parts_are_in_turn(w, i);
    in_turn_one_after_the_other(s0, s1, 0, 0, 1);
    let t1 = s0 + s1;
    in_turn_one_after_the_other(t1, s2, 0, 1, 2);
    let t2 = t1 + s2;
    in_turn_one_after_the_other(t2, s3, 0, 2, 3);
    let t3 = t2 + s3;
    in_turn_one_after_the_other(t3, s4, 0, 3, 4);
    let t4 = t3 + s4;
    in_turn_one_after_the_other(t4, s5, 0, 4, 5);
    let t5 = t4 + s5;
    in_turn_one_after_the_other(t5, s6, 0, 5, 6);
    let t6 = t5 + s6;
    in_turn_one_after_the_other(t6, s7, 0, 6, 7);
    let t7 = t6 + s7;
    the_end_comes_last(t7);
    assert(follow_ups(w, i) == t7 + seq![FollowUpView::Broadcast]);
}

proof fn parts_are_in_turn(w: Win, i: Intents)
    ensures
        in_turn(
            maybe(
                i.caret is Some,
                FollowUpView::Spot {
                    x: i.caret.unwrap().0 as int,
                    y: i.caret.unwrap().1 + i.caret.unwrap().2,
                },
            ),
            0,
            0,
        ),
        in_turn(maybe(i.title is Some, FollowUpView::Title(i.title.unwrap()@)), 0, 1),
        in_turn(hotkey_follow_ups(i.hotkey_ops@), 1, 2),
        in_turn(
            maybe(i.cursor != w.cursor, FollowUpView::Cursor(cursor_place(i.cursor))),
            2,
            3,
        ),
        in_turn(maybe(i.op is Some, FollowUpView::Op(i.op.unwrap())), 3, 4),
        in_turn(maybe(i.dialog, FollowUpView::Dialog), 4, 5),
        in_turn(opening_follow_ups(i.openings@, w.id), 5, 6),
        in_turn(maybe(i.close, FollowUpView::Close), 6, 7),
{
    reveal(in_turn);
}

proof fn the_end_comes_last(s: Seq<FollowUpView>)
    requires
        in_turn(s, 0, 7),
    ensures
        ({
            let all = s + seq![FollowUpView::Broadcast];
            &&& forall|a: int, b: int|
                0 <= a < b < all.len() ==> turn(#[trigger] all[a]) <= turn(#[trigger] all[b])
            &&& all.len() > 0 && all.last() is Broadcast
            &&& forall|a: int| 0 <= a < all.len() - 1 ==> !(#[trigger] all[a] is Broadcast)
        }),
{
    reveal(in_turn);
    let all = s + seq![FollowUpView::Broadcast];
    assert forall|a: int| 0 <= a < all.len() - 1 implies !(#[trigger] all[a] is Broadcast) by {
        assert(all[a] == s[a]);
    }
    assert forall|a: int, b: int| 0 <= a < b < all.len() implies turn(#[trigger] all[a]) <= turn(
        #[trigger] all[b],
    ) by {
        assert(all[a] == s[a]);
        if b < s.len() {
            assert(all[b] == s[b]);
        }
    }
}

/// What the content asks for is done, and nothing that it does not ask for.
pub proof fn wishes_are_followed(w: Win, i: Intents, f: FollowUpView)
    ensures
        follow_ups(w, i).contains(f) <==> (match f {
            FollowUpView::Spot { x, y } => i.caret matches Some(c) && x == c.0 && y == c.1 + c.2,
            FollowUpView::Title(t) => i.title matches Some(s) && s@ == t,
            FollowUpView::Hotkey { id, op } => i.hotkey_ops@.contains((id, op)),
            FollowUpView::Cursor(k) => i.cursor != w.cursor && k == cursor_place(i.cursor),
            FollowUpView::Op(op) => i.op == Some(op),
            FollowUpView::Dialog => i.dialog,
            FollowUpView::Create { index, owner } => exists|k: int|
                0 <= k < i.openings@.len() && (#[trigger] i.openings@[k] matches Opening::Create {
                    index: n,
                    owned,
                    modal,
                } && n == index && (owner is Some <==> owned || modal) && (owner matches Some(o)
                    ==> o == w.id)),
            FollowUpView::Focus(t) => exists|k: int|
                0 <= k < i.openings@.len() && (#[trigger] i.openings@[k] matches Opening::Focus(s)
                    && s@ == t),
            FollowUpView::Close => i.close,
            FollowUpView::Broadcast => true,
        }),
{
    let spot = FollowUpView::Spot {
        x: i.caret.unwrap().0 as int,
        y: i.caret.unwrap().1 + i.caret.unwrap().2,
    };
    let s0 = maybe(i.caret is Some, spot);
    let s1 = maybe(i.title is Some, FollowUpView::Title(i.title.unwrap()@));
    let s2 = hotkey_follow_ups(i.hotkey_ops@);
    let s3 = maybe(i.cursor != w.cursor, FollowUpView::Cursor(cursor_place(i.cursor)));
    let s4 = maybe(i.op is Some, FollowUpView::Op(i.op.unwrap()));
    let s5 = maybe(i.dialog, FollowUpView::Dialog);
    let s6 = opening_follow_ups(i.openings@, w.id);
    let s7 = maybe(i.close, FollowUpView::Close);
    let s8 = seq![FollowUpView::Broadcast];
    in_either(s0, s1, f);
    in_either(s0 + s1, s2, f);
    in_either(s0 + s1 + s2, s3, f);
    in_either(s0 + s1 + s2 + s3, s4, f);
    in_either(s0 + s1 + s2 + s3 + s4, s5, f);
    in_either(s0 + s1 + s2 + s3 + s4 + s5, s6, f);
    in_either(s0 + s1 + s2 + s3 + s4 + s5 + s6, s7, f);
    in_either(s0 + s1 + s2 + s3 + s4 + s5 + s6 + s7, s8, f);
    in_maybe(i.caret is Some, spot, f);
    in_maybe(i.title is Some, FollowUpView::Title(i.title.unwrap()@), f);
    in_maybe(i.cursor != w.cursor, FollowUpView::Cursor(cursor_place(i.cursor)), f);
    in_maybe(i.op is Some, FollowUpView::Op(i.op.unwrap()), f);
    in_maybe(i.dialog, FollowUpView::Dialog, f);
    in_maybe(i.close, FollowUpView::Close, f);
    assert(s8[0] is Broadcast);
    let ops = i.hotkey_ops@;
    if let FollowUpView::Hotkey { id, op } = f {
        if ops.contains((id, op)) {
            let k = choose|k: int| 0 <= k < ops.len() && ops[k] == (id, op);
            assert(s2[k] == f);
        }
        if s2.contains(f) {
            let k = choose|k: int| 0 <= k < s2.len() && s2[k] == f;
            assert(ops[k] == (id, op));
        }
    }
    let opens = i.openings@;
    if s6.contains(f) {
        let k = choose|k: int| 0 <= k < s6.len() && s6[k] == f;
        match opens[k] {
            Opening::Create { index, owned, modal } => {},
            Opening::Focus(s) => {},
        }
    }
    if let FollowUpView::Focus(t) = f {
        if exists|k: int|
            0 <= k < opens.len() && (#[trigger] opens[k] matches Opening::Focus(s) && s@ == t) {
            let k = choose|k: int|
                0 <= k < opens.len() && (#[trigger] opens[k] matches Opening::Focus(s) && s@ == t);
            assert(s6[k] == f);
        }
    }
    if let FollowUpView::Create { index, owner } = f {
        if exists|k: int|
            0 <= k < opens.len() && (#[trigger] opens[k] matches Opening::Create {
                index: n,
                owned,
                modal,
            } && n == index && (owner is Some <==> owned || modal) && (owner matches Some(o) ==> o
                == w.id)) {
            let k = choose|k: int|
                0 <= k < opens.len() && (#[trigger] opens[k] matches Opening::Create {
                    index: n,
                    owned,
                    modal,
                } && n == index && (owner is Some <==> owned || modal) && (owner matches Some(o)
                    ==> o == w.id));
            assert(s6[k] == f);
        }
    }
}

/// Each shape of the cursor has a place of its own in a table of five.
pub proof fn cursors_have_their_own_places(a: CursorShape, b: CursorShape)
    ensures
        0 <= cursor_place(a) < 5,
        cursor_place(a) == cursor_place(b) ==> a == b,
{
}

} // verus!
