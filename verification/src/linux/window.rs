//! The windows of an X11 session: what is known of each, who owns whom, and what closing one
//! takes along.

use crate::event::CursorShape;
use crate::geometry::Rect;
use crate::text;
use vstd::prelude::*;

verus! {

/// A second press within this time of the first makes a double click.
pub const DOUBLE_CLICK_MS: u32 = 400;

/// A periodic timer; times are nanoseconds on a clock that only moves forward.
#[derive(Clone, Copy, Debug, PartialEq, Eq, Structural)]
pub struct Timer {
    pub period: u64,
    pub due: u64,
}

/// Counts clicks in a cycle of one and two.
#[derive(Clone, Copy, Debug, PartialEq, Eq, Structural)]
pub struct ClickTracker {
    pub time: u32,
    pub x: i32,
    pub y: i32,
    pub button: u8,
    pub count: u8,
}

/// Two coordinates differ by at most `slop`.
pub open spec fn within(a: int, b: int, slop: int) -> bool {
    -slop <= a - b <= slop
}

/// Milliseconds from `then` to `now` on the server's wrapping clock.
pub open spec fn elapsed_ms(now: u32, then: u32) -> int {
    if now >= then { now - then } else { now - then + 0x1_0000_0000 }
}

impl ClickTracker {
    /// The press makes a double click with the one before it: near, quick, the same button,
    /// and that one was a single.
    pub open spec fn doubles(self, time: u32, x: i32, y: i32, button: u8, slop: i32) -> bool {
        &&& within(x as int, self.x as int, slop as int)
        &&& within(y as int, self.y as int, slop as int)
        &&& elapsed_ms(time, self.time) <= DOUBLE_CLICK_MS
        &&& button == self.button
        &&& self.count == 1
    }

    /// The tracker after a press.
    pub open spec fn pressed(self, time: u32, x: i32, y: i32, button: u8, slop: i32) -> ClickTracker {
        ClickTracker {
            time,
            x,
            y,
            button,
            count: if self.doubles(time, x, y, button, slop) { 2u8 } else { 1u8 },
        }
    }

    /// Takes a press into account and returns its place in the cycle.
    pub fn press(&mut self, time: u32, pos: (i32, i32), button: u8, slop: i32) -> (r: u8)
        ensures
            *final(self) == old(self).pressed(time, pos.0, pos.1, button, slop),
            r == final(self).count,
    {
        let (x, y) = pos;
        let dx: i64 = x as i64 - self.x as i64;
        let dy: i64 = y as i64 - self.y as i64;
        let s: i64 = slop as i64;
        let near = -s <= dx && dx <= s && -s <= dy && dy <= s;
        let quick = time.wrapping_sub(self.time) <= DOUBLE_CLICK_MS;
        let count: u8 = if near && quick && button == self.button && self.count == 1 {
            2
        } else {
            1
        };
        self.time = time;
        self.x = x;
        self.y = y;
        self.button = button;
        self.count = count;
        count
    }
}

impl Default for ClickTracker {
    fn default() -> (r: ClickTracker)
        ensures
            r == (ClickTracker { time: 0, x: 0, y: 0, button: 0, count: 0 }),
    {
        ClickTracker { time: 0, x: 0, y: 0, button: 0, count: 0 }
    }
}

/// What is to be drawn and sent.
#[derive(Clone, Copy, Debug, PartialEq, Eq, Structural)]
pub struct PaintState {
    /// The buffer was just made: the next frame draws the whole window.
    pub fresh: bool,
    pub needs_paint: bool,
    /// What the server wants sent again; it need not be drawn again.
    pub exposed: Option<Rect>,
}

/// How the window stands on the screen.
#[derive(Clone, Copy, Debug, PartialEq, Eq, Structural)]
pub struct ShowState {
    pub mapped: bool,
    /// Hidden by the application, so that showing it is news to it.
    pub hidden: bool,
    pub maximized: bool,
    pub minimized: bool,
}

/// A press that may become a drag: its direction, and where it began on the root window.
#[derive(Clone, Copy, Debug, PartialEq, Eq, Structural)]
pub struct PendingDrag {
    pub direction: u32,
    pub x: i16,
    pub y: i16,
}

/// What the pointer is in the middle of.
#[derive(Clone, Copy, Debug, PartialEq, Eq, Structural)]
pub struct PointerState {
    pub click: ClickTracker,
    /// A press on the title bar or an edge that has not moved far enough to be handed to the
    /// window manager. Handing it over at once would race with the release and cost the
    /// second click of a double click.
    pub pending_drag: Option<PendingDrag>,
    /// The release that belongs to such a press is not delivered either.
    pub swallow_up: bool,
    /// The content captured the pointer.
    pub capturing: bool,
}

/// One window.
pub struct Win {
    pub id: u32,
    pub frameless: bool,
    pub resizable: bool,
    /// At most one window with this key is open.
    pub single: Option<String>,
    pub owner: Option<u32>,
    /// Input to the owner is blocked while this window is open.
    pub modal: bool,
    pub w: i32,
    pub h: i32,
    /// What the content is drawn on.
    pub pixmap: Option<tiny_skia::Pixmap>,
    pub paint: PaintState,
    pub shown: ShowState,
    pub pointer: PointerState,
    pub intervals: Vec<Timer>,
    pub cursor: CursorShape,
    /// An input method's composition is on display.
    pub composing: bool,
}

/// The windows, oldest first.
pub struct Windows {
    pub list: Vec<Win>,
}

/// An area that exposures can add up to.
pub open spec fn exposure_bounds(r: Rect) -> bool {
    &&& 0 <= r.x && 0 <= r.w && r.x + r.w <= 131070
    &&& 0 <= r.y && 0 <= r.h && r.y + r.h <= 131070
}

/// A window `id` is among the first `n`.
pub open spec fn known_before(s: Seq<Win>, id: u32, n: int) -> bool {
    exists|j: int| 0 <= j < n && (#[trigger] s[j]).id == id
}

/// The table is consistent: no id twice, an owner stands before what it owns, only owned
/// windows are modal, and exposures are within bounds.
pub open spec fn consistent(s: Seq<Win>) -> bool {
    &&& forall|i: int, j: int|
        0 <= i < j < s.len() ==> (#[trigger] s[i]).id != (#[trigger] s[j]).id
    &&& forall|i: int|
        0 <= i < s.len() ==> ((#[trigger] s[i]).owner matches Some(o) ==> known_before(s, o, i))
    &&& forall|i: int| 0 <= i < s.len() ==> ((#[trigger] s[i]).modal ==> s[i].owner is Some)
    &&& forall|i: int|
        0 <= i < s.len() ==> ((#[trigger] s[i]).paint.exposed matches Some(r) ==> exposure_bounds(r))
}

/// The position of window `id`, or the length where it is not in the table.
pub open spec fn position(s: Seq<Win>, id: u32) -> int
    decreases s.len(),
{
    if s.len() == 0 {
        0
    } else if s[0].id == id {
        0
    } else {
        1 + position(s.skip(1), id)
    }
}

/// The first modal window that `id` owns: it takes the input in place of `id`.
pub open spec fn blocker(s: Seq<Win>, id: u32) -> Option<u32>
    decreases s.len(),
{
    if s.len() == 0 {
        None
    } else if s[0].modal && s[0].owner == Some(id) {
        Some(s[0].id)
    } else {
        blocker(s.skip(1), id)
    }
}

/// The first window with this key.
pub open spec fn keyed(s: Seq<Win>, key: Seq<char>) -> Option<u32>
    decreases s.len(),
{
    if s.len() == 0 {
        None
    } else if text::opt_text(s[0].single) == Some(key) {
        Some(s[0].id)
    } else {
        keyed(s.skip(1), key)
    }
}

/// The keys in use, in table order.
pub open spec fn keys_in_use(s: Seq<Win>) -> Seq<Seq<char>>
    decreases s.len(),
{
    if s.len() == 0 {
        Seq::empty()
    } else {
        match s.last().single {
            Some(k) => keys_in_use(s.drop_last()).push(k@),
            None => keys_in_use(s.drop_last()),
        }
    }
}

/// The windows that closing window `i` closes, in order: what it owns, each with what that
/// owns, and then itself.
pub open spec fn close_order(s: Seq<Win>, i: int) -> Seq<u32>
    decreases s.len() - i, s.len() + 1,
{
    if 0 <= i < s.len() {
        owned_order(s, i, i + 1).push(s[i].id)
    } else {
        Seq::empty()
    }
}

/// The same for what window `i` owns from position `from` on.
pub open spec fn owned_order(s: Seq<Win>, i: int, from: int) -> Seq<u32>
    decreases s.len() - i, s.len() - from,
{
    if !(0 <= i < from < s.len()) {
        Seq::empty()
    } else if s[from].owner == Some(s[i].id) {
        close_order(s, from) + owned_order(s, i, from + 1)
    } else {
        owned_order(s, i, from + 1)
    }
}

/// The windows that are not among `gone`, in order.
pub open spec fn without(s: Seq<Win>, gone: Seq<u32>) -> Seq<Win> {
    s.filter(|w: Win| !gone.contains(w.id))
}

/// A window of the table is at its position.
pub proof fn position_finds(s: Seq<Win>, id: u32)
    ensures
        0 <= position(s, id) <= s.len(),
        position(s, id) < s.len() ==> s[position(s, id)].id == id,
        forall|j: int| 0 <= j < position(s, id) ==> (#[trigger] s[j]).id != id,
    decreases s.len(),
{
    if s.len() > 0 && s[0].id != id {
        position_finds(s.skip(1), id);
        let p = position(s.skip(1), id);
        assert forall|j: int| 0 <= j < 1 + p implies (#[trigger] s[j]).id != id by {
            if j > 0 {
                assert(s.skip(1)[j - 1] == s[j]);
            }
        }
    }
}

/// A table that has `w` at `k` and no earlier window with that id has it at its position.
pub proof fn position_is(s: Seq<Win>, id: u32, k: int)
    requires
        0 <= k < s.len(),
        s[k].id == id,
        forall|j: int| 0 <= j < k ==> (#[trigger] s[j]).id != id,
    ensures
        position(s, id) == k,
{
    position_finds(s, id);
}

impl Windows {
    pub open spec fn wf(self) -> bool {
        consistent(self.list@)
    }

    pub open spec fn has(self, id: u32) -> bool {
        position(self.list@, id) < self.list@.len()
    }

    pub fn new() -> (r: Windows)
        ensures
            r.wf(),
            r.list@ == Seq::<Win>::empty(),
    {
        Windows { list: Vec::new() }
    }

    /// The position of a window.
    pub fn idx(&self, id: u32) -> (r: Option<usize>)
        ensures
            match r {
                Some(i) => self.has(id) && i == position(self.list@, id) && self.list@[i as int].id
                    == id,
                None => !self.has(id),
            },
    {
        let mut i: usize = 0;
        while i < self.list.len()
            invariant
                i <= self.list@.len(),
                forall|j: int| 0 <= j < i ==> (#[trigger] self.list@[j]).id != id,
            decreases self.list@.len() - i,
        {
            if self.list[i].id == id {
                proof {
                    position_is(self.list@, id, i as int);
                }
                return Some(i);
            }
            i += 1;
        }
        proof {
            position_finds(self.list@, id);
        }
        None
    }

    /// The modal window that takes the input in place of `id`.
    pub fn blocked_by_modal(&self, id: u32) -> (r: Option<u32>)
        ensures
            r == blocker(self.list@, id),
    {
        let mut i: usize = 0;
        assert(self.list@.skip(0) =~= self.list@);
        while i < self.list.len()
            invariant
                i <= self.list@.len(),
                blocker(self.list@.skip(i as int), id) == blocker(self.list@, id),
            decreases self.list@.len() - i,
        {
            assert(self.list@.skip(i as int).skip(1) =~= self.list@.skip(i + 1));
            if self.list[i].modal {
                if let Some(o) = self.list[i].owner {
                    if o == id {
                        return Some(self.list[i].id);
                    }
                }
            }
            i += 1;
        }
        None
    }

    /// The window with this key.
    pub fn find_single(&self, key: &str) -> (r: Option<u32>)
        ensures
            r == keyed(self.list@, key@),
    {
        let mut i: usize = 0;
        assert(self.list@.skip(0) =~= self.list@);
        while i < self.list.len()
            invariant
                i <= self.list@.len(),
                keyed(self.list@.skip(i as int), key@) == keyed(self.list@, key@),
            decreases self.list@.len() - i,
        {
            assert(self.list@.skip(i as int).skip(1) =~= self.list@.skip(i + 1));
            if let Some(k) = &self.list[i].single {
                if text::same_text(k.as_str(), key) {
                    return Some(self.list[i].id);
                }
            }
            i += 1;
        }
        None
    }

    /// The keys in use.
    pub fn open_keys(&self) -> (r: Vec<String>)
        ensures
            text::texts(r@) == keys_in_use(self.list@),
    {
        let mut out: Vec<String> = Vec::new();
        let mut i: usize = 0;
        assert(text::texts(out@) =~= keys_in_use(self.list@.take(0)));
        while i < self.list.len()
            invariant
                i <= self.list@.len(),
                text::texts(out@) == keys_in_use(self.list@.take(i as int)),
            decreases self.list@.len() - i,
        {
            assert(self.list@.take(i + 1).drop_last() =~= self.list@.take(i as int));
            if let Some(k) = &self.list[i].single {
                let ghost before = out@;
                out.push(k.clone());
                assert(text::texts(out@) =~= text::texts(before).push(k@));
            }
            i += 1;
        }
        assert(self.list@.take(i as int) =~= self.list@);
        out
    }

    fn closing(&self, i: usize, out: &mut Vec<u32>)
        requires
            i < self.list@.len(),
        ensures
            final(out)@ == old(out)@ + close_order(self.list@, i as int),
        decreases self.list@.len() - i,
    {
        let n: usize = self.list.len();
        let mut from: usize = i + 1;
        let ghost before = out@;
        while from < n
            invariant
                n == self.list@.len(),
                i < from <= self.list@.len(),
                i < self.list@.len(),
                out@ + owned_order(self.list@, i as int, from as int) == before + owned_order(
                    self.list@,
                    i as int,
                    i + 1,
                ),
            decreases self.list@.len() - from,
        {
            let owned = match self.list[from].owner {
                Some(o) => o == self.list[i].id,
                None => false,
            };
            if owned {
                let ghost mid = out@;
                self.closing(from, out);
                assert(out@ + owned_order(self.list@, i as int, from + 1) =~= mid + owned_order(
                    self.list@,
                    i as int,
                    from as int,
                ));
            }
            from += 1;
        }
        assert(out@ + owned_order(self.list@, i as int, from as int) =~= out@);
        let id: u32 = self.list[i].id;
        out.push(id);
        assert(out@ =~= before + close_order(self.list@, i as int));
    }

    /// Closes a window with all that it owns, and says which windows went, in the order in
    /// which they are to be destroyed. An unknown window closes nothing.
    pub fn close_window(&mut self, id: u32) -> (r: Vec<u32>)
        ensures
            old(self).has(id) ==> r@ == close_order(
                old(self).list@,
                position(old(self).list@, id),
            ),
            !old(self).has(id) ==> r@ == Seq::<u32>::empty(),
            final(self).list@ == without(old(self).list@, r@),
            old(self).wf() ==> final(self).wf(),
    {
        let mut gone: Vec<u32> = Vec::new();
        if let Some(i) = self.idx(id) {
            self.closing(i, &mut gone);
            assert(gone@ =~= close_order(self.list@, i as int));
        }
        let ghost all = self.list@;
        let ghost keep = |w: Win| !gone@.contains(w.id);
        let mut i: usize = 0;
        let ghost mut seen: int = 0;
        reveal(Seq::filter);
        assert(all.take(0).filter(keep) =~= Seq::<Win>::empty());
        assert(self.list@ =~= all.take(0).filter(keep) + all.skip(0));
        while i < self.list.len()
            invariant
                0 <= seen <= all.len(),
                i == all.take(seen).filter(keep).len(),
                self.list@ == all.take(seen).filter(keep) + all.skip(seen),
                keep == (|w: Win| !gone@.contains(w.id)),
            decreases all.len() - seen,
        {
            proof {
                assert(self.list@[i as int] == all.skip(seen)[0]);
                assert(all.take(seen + 1).drop_last() =~= all.take(seen));
                reveal(Seq::filter);
            }
            let ghost kept = all.take(seen).filter(keep);
            if contains(&gone, self.list[i].id) {
                self.list.remove(i);
                assert(self.list@ =~= kept + all.skip(seen + 1));
            } else {
                assert(self.list@ =~= kept.push(all[seen]) + all.skip(seen + 1));
                i += 1;
            }
            proof {
                seen = seen + 1;
            }
        }
        assert(seen == all.len());
        assert(all.take(seen) =~= all);
        assert(self.list@ =~= all.filter(keep));
        proof {
            if consistent(all) {
                if old(self).has(id) {
                    position_finds(all, id);
                    closing_keeps_the_table_consistent(all, position(all, id));
                } else {
                    removal_keeps_consistent(all, gone@, all.len() as int);
                }
            }
        }
        gone
    }
}

fn contains(v: &Vec<u32>, x: u32) -> (r: bool)
    ensures
        r == v@.contains(x),
{
    let mut i: usize = 0;
    while i < v.len()
        invariant
            i <= v@.len(),
            forall|j: int| 0 <= j < i ==> v@[j] != x,
        decreases v@.len() - i,
    {
        if v[i] == x {
            assert(v@[i as int] == x);
            return true;
        }
        i += 1;
    }
    false
}

/// What window `i` owns is among what closes with it.
proof fn owned_is_closed(s: Seq<Win>, i: int, from: int, c: int)
    requires
        0 <= i < from <= c < s.len(),
        s[c].owner == Some(s[i].id),
    ensures
        owned_order(s, i, from).contains(s[c].id),
    decreases c - from,
{
    if from == c {
        let first = close_order(s, c);
        assert(first[first.len() - 1] == s[c].id);
        let all = owned_order(s, i, from);
        assert(all[first.len() - 1] == s[c].id);
    } else {
        owned_is_closed(s, i, from + 1, c);
        let rest = owned_order(s, i, from + 1);
        let k = choose|k: int| 0 <= k < rest.len() && rest[k] == s[c].id;
        let all = owned_order(s, i, from);
        if s[from].owner == Some(s[i].id) {
            assert(all[close_order(s, from).len() + k] == s[c].id);
        } else {
            assert(all[k] == s[c].id);
        }
    }
}

/// An owner stands before what it owns.
proof fn owner_is_earlier(s: Seq<Win>, k: int, c: int)
    requires
        consistent(s),
        0 <= k < s.len(),
        0 <= c < s.len(),
        s[c].owner == Some(s[k].id),
    ensures
        k < c,
{
    assert(known_before(s, s[k].id, c));
    let j = choose|j: int| 0 <= j < c && (#[trigger] s[j]).id == s[k].id;
    if k > j {
        assert(s[j].id != s[k].id);
    }
}

/// What closes is closed under ownership.
proof fn close_is_downward(s: Seq<Win>, i: int, k: int, c: int)
    requires
        consistent(s),
        0 <= i < s.len(),
        0 <= k < s.len(),
        0 <= c < s.len(),
        s[c].owner == Some(s[k].id),
        close_order(s, i).contains(s[k].id),
    ensures
        close_order(s, i).contains(s[c].id),
    decreases s.len() - i, s.len() + 1,
{
    owner_is_earlier(s, k, c);
    let all = close_order(s, i);
    let sub = owned_order(s, i, i + 1);
    if s[k].id == s[i].id {
        assert(k == i) by {
            if k < i {
                assert(s[k].id != s[i].id);
            } else if i < k {
                assert(s[i].id != s[k].id);
            }
        }
        owned_is_closed(s, i, i + 1, c);
    } else {
        let x = choose|x: int| 0 <= x < all.len() && all[x] == s[k].id;
        assert(x < sub.len());
        assert(sub[x] == s[k].id);
        owned_is_downward(s, i, i + 1, k, c);
    }
    let y = choose|y: int| 0 <= y < sub.len() && sub[y] == s[c].id;
    assert(all[y] == s[c].id);
}

proof fn owned_is_downward(s: Seq<Win>, i: int, from: int, k: int, c: int)
    requires
        consistent(s),
        0 <= i < from <= s.len(),
        0 <= k < s.len(),
        0 <= c < s.len(),
        s[c].owner == Some(s[k].id),
        owned_order(s, i, from).contains(s[k].id),
    ensures
        owned_order(s, i, from).contains(s[c].id),
    decreases s.len() - i, s.len() - from,
{
    let all = owned_order(s, i, from);
    let x = choose|x: int| 0 <= x < all.len() && all[x] == s[k].id;
    if from < s.len() {
        let rest = owned_order(s, i, from + 1);
        if s[from].owner == Some(s[i].id) {
            let first = close_order(s, from);
            if x < first.len() {
                assert(first[x] == s[k].id);
                close_is_downward(s, from, k, c);
                let y = choose|y: int| 0 <= y < first.len() && first[y] == s[c].id;
                assert(all[y] == s[c].id);
            } else {
                assert(rest[x - first.len()] == s[k].id);
                owned_is_downward(s, i, from + 1, k, c);
                let y = choose|y: int| 0 <= y < rest.len() && rest[y] == s[c].id;
                assert(all[first.len() + y] == s[c].id);
            }
        } else {
            owned_is_downward(s, i, from + 1, k, c);
        }
    }
}

/// Closing a window closes whatever is owned by a window that closes.
pub proof fn closing_takes_what_is_owned(s: Seq<Win>, i: int)
    requires
        consistent(s),
        0 <= i < s.len(),
    ensures
        close_order(s, i).contains(s[i].id),
        forall|k: int, c: int|
            0 <= k < s.len() && 0 <= c < s.len() && close_order(s, i).contains(
                (#[trigger] s[k]).id,
            ) && (#[trigger] s[c]).owner == Some(s[k].id) ==> close_order(s, i).contains(s[c].id),
{
    let all = close_order(s, i);
    assert(all[all.len() - 1] == s[i].id);
    assert forall|k: int, c: int|
        0 <= k < s.len() && 0 <= c < s.len() && close_order(s, i).contains((#[trigger] s[k]).id)
            && (#[trigger] s[c]).owner == Some(s[k].id) implies close_order(s, i).contains(
        s[c].id,
    ) by {
        close_is_downward(s, i, k, c);
    }
}

/// Closing a window closes nothing but that window and what is owned by a window that closes,
/// and destroys each of those before its owner.
pub proof fn closing_takes_nothing_else(s: Seq<Win>, i: int)
    requires
        0 <= i < s.len(),
    ensures
        forall|x: int|
            0 <= x < close_order(s, i).len() - 1 ==> closes_with_owner(s, close_order(s, i), x),
        close_order(s, i).last() == s[i].id,
    decreases s.len() - i, s.len() + 1,
{
    owned_closes_nothing_else(s, i, i + 1);
    let sub = owned_order(s, i, i + 1);
    let all = close_order(s, i);
    assert forall|x: int| 0 <= x < all.len() - 1 implies closes_with_owner(s, all, x) by {
        assert(closes_with_owner(s, sub.push(s[i].id), x));
    }
}

/// Entry `x` of a closing order is a window of the table whose owner closes later.
pub open spec fn closes_with_owner(s: Seq<Win>, order: Seq<u32>, x: int) -> bool {
    exists|c: int, y: int|
        0 <= c < s.len() && x < y < order.len() && (#[trigger] s[c]).id == order[x] && s[c].owner
            == Some(#[trigger] order[y])
}

proof fn owned_closes_nothing_else(s: Seq<Win>, i: int, from: int)
    requires
        0 <= i < from <= s.len(),
    ensures
        forall|x: int|
            0 <= x < owned_order(s, i, from).len() ==> closes_with_owner(
                s,
                owned_order(s, i, from).push(s[i].id),
                x,
            ),
    decreases s.len() - i, s.len() - from,
{
    if from < s.len() {
        owned_closes_nothing_else(s, i, from + 1);
        let rest = owned_order(s, i, from + 1);
        let all = owned_order(s, i, from);
        let whole = all.push(s[i].id);
        if s[from].owner == Some(s[i].id) {
            closing_takes_nothing_else(s, from);
            let first = close_order(s, from);
            assert forall|x: int| 0 <= x < all.len() implies closes_with_owner(s, whole, x) by {
                if x < first.len() - 1 {
                    assert(closes_with_owner(s, first, x));
                    let (c, y) = choose|c: int, y: int|
                        0 <= c < s.len() && x < y < first.len() && (#[trigger] s[c]).id == first[x]
                            && s[c].owner == Some(#[trigger] first[y]);
                    assert(whole[x] == first[x] && whole[y] == first[y]);
                    assert(s[c].id == whole[x] && s[c].owner == Some(whole[y]));
                } else if x == first.len() - 1 {
                    assert(whole[x] == s[from].id);
                    assert(s[from].owner == Some(whole[whole.len() - 1]));
                } else {
                    let z = x - first.len();
                    let tail = rest.push(s[i].id);
                    assert(closes_with_owner(s, tail, z));
                    let (c, y) = choose|c: int, y: int|
                        0 <= c < s.len() && z < y < tail.len() && (#[trigger] s[c]).id == tail[z]
                            && s[c].owner == Some(#[trigger] tail[y]);
                    assert(whole[x] == tail[z] && whole[first.len() + y] == tail[y]);
                    assert(s[c].id == whole[x] && s[c].owner == Some(whole[first.len() + y]));
                }
            }
        } else {
            assert(all =~= rest);
        }
    }
}

/// A table without some windows is consistent, provided that what they own is gone too.
proof fn removal_keeps_consistent(s: Seq<Win>, gone: Seq<u32>, n: int)
    requires
        consistent(s),
        0 <= n <= s.len(),
        forall|k: int, c: int|
            0 <= k < s.len() && 0 <= c < s.len() && gone.contains((#[trigger] s[k]).id) && (
            #[trigger] s[c]).owner == Some(s[k].id) ==> gone.contains(s[c].id),
    ensures
        consistent(without(s.take(n), gone)),
        forall|j: int|
            0 <= j < n && !gone.contains((#[trigger] s[j]).id) ==> known_before(
                without(s.take(n), gone),
                s[j].id,
                without(s.take(n), gone).len() as int,
            ),
        forall|m: int|
            0 <= m < without(s.take(n), gone).len() ==> exists|j: int|
                0 <= j < n && #[trigger] s[j] == #[trigger] without(s.take(n), gone)[m],
    decreases n,
{
    reveal(Seq::filter);
    if n > 0 {
        removal_keeps_consistent(s, gone, n - 1);
        assert(s.take(n).drop_last() =~= s.take(n - 1));
        let before = without(s.take(n - 1), gone);
        let after = without(s.take(n), gone);
        let w = s[n - 1];
        if gone.contains(w.id) {
            assert(after =~= before);
        } else {
            assert(after =~= before.push(w));
            assert forall|a: int, b: int| 0 <= a < b < after.len() implies (#[trigger] after[a]).id
                != (#[trigger] after[b]).id by {
                if b == before.len() {
                    let j = choose|j: int| 0 <= j < n - 1 && #[trigger] s[j] == before[a];
                    assert(s[j].id != s[n - 1].id);
                } else {
                    assert(before[a].id != before[b].id);
                }
            }
            assert forall|a: int| 0 <= a < after.len() implies ((#[trigger] after[a]).owner matches Some(
                o,
            ) ==> known_before(after, o, a)) by {
                if a < before.len() {
                    assert(before[a].owner matches Some(o) ==> known_before(before, o, a));
                    if let Some(o) = after[a].owner {
                        let j = choose|j: int| 0 <= j < a && (#[trigger] before[j]).id == o;
                        assert(after[j].id == o);
                    }
                } else if let Some(o) = w.owner {
                    assert(known_before(s, o, n - 1));
                    let j = choose|j: int| 0 <= j < n - 1 && (#[trigger] s[j]).id == o;
                    assert(!gone.contains(s[j].id)) by {
                        if gone.contains(s[j].id) {
                            assert(s[n - 1].owner == Some(s[j].id));
                        }
                    }
                    let m = choose|m: int| 0 <= m < before.len() && (#[trigger] before[m]).id == o;
                    assert(after[m].id == o);
                }
            }
            assert forall|a: int|
                0 <= a < after.len() && (#[trigger] after[a]).modal implies after[a].owner is Some by {
                if a < before.len() {
                    assert(before[a].modal ==> before[a].owner is Some);
                }
            }
            assert forall|a: int| 0 <= a < after.len() implies ((#[trigger] after[a]).paint.exposed matches Some(
                r,
            ) ==> exposure_bounds(r)) by {
                if a < before.len() {
                    assert(before[a].paint.exposed matches Some(r) ==> exposure_bounds(r));
                }
            }
            assert forall|j: int| 0 <= j < n && !gone.contains((#[trigger] s[j]).id) implies known_before(
                after,
                s[j].id,
                after.len() as int,
            ) by {
                if j < n - 1 {
                    let m = choose|m: int|
                        0 <= m < before.len() && (#[trigger] before[m]).id == s[j].id;
                    assert(after[m].id == s[j].id);
                } else {
                    assert(after[before.len() as int].id == s[j].id);
                }
            }
            assert forall|m: int| 0 <= m < after.len() implies exists|j: int|
                0 <= j < n && #[trigger] s[j] == #[trigger] after[m] by {
                if m < before.len() {
                    let j = choose|j: int| 0 <= j < n - 1 && #[trigger] s[j] == before[m];
                    assert(s[j] == after[m]);
                } else {
                    assert(s[n - 1] == after[m]);
                }
            }
        }
    } else {
        assert(without(s.take(0), gone) =~= Seq::<Win>::empty());
    }
}

/// Closing a window keeps the table consistent: no window is left whose owner is gone.
pub proof fn closing_keeps_the_table_consistent(s: Seq<Win>, i: int)
    requires
        consistent(s),
        0 <= i < s.len(),
    ensures
        consistent(without(s, close_order(s, i))),
{
    closing_takes_what_is_owned(s, i);
    removal_keeps_consistent(s, close_order(s, i), s.len() as int);
    assert(s.take(s.len() as int) =~= s);
}

/// A window is blocked exactly while a modal window that it owns is open, and the blocker is
/// such a window.
pub proof fn blocker_is_open(s: Seq<Win>, id: u32)
    ensures
        blocker(s, id) matches Some(m) ==> exists|j: int|
            0 <= j < s.len() && (#[trigger] s[j]).id == m && s[j].modal && s[j].owner == Some(id),
        blocker(s, id) is None ==> forall|j: int|
            0 <= j < s.len() ==> !((#[trigger] s[j]).modal && s[j].owner == Some(id)),
    decreases s.len(),
{
    if s.len() > 0 {
        blocker_is_open(s.skip(1), id);
        let rest = s.skip(1);
        if s[0].modal && s[0].owner == Some(id) {
            assert(s[0].id == blocker(s, id).unwrap());
        } else {
            if let Some(m) = blocker(rest, id) {
                let j = choose|j: int|
                    0 <= j < rest.len() && (#[trigger] rest[j]).id == m && rest[j].modal
                        && rest[j].owner == Some(id);
                assert(s[j + 1].id == m && s[j + 1].modal && s[j + 1].owner == Some(id));
            } else {
                assert forall|j: int| 0 <= j < s.len() implies !((#[trigger] s[j]).modal
                    && s[j].owner == Some(id)) by {
                    if j > 0 {
                        assert(rest[j - 1] == s[j]);
                    }
                }
            }
        }
    }
}

/// Presses that are near, quick and of one button count one, two, one, two: after a press that
/// made a double click the next starts over.
pub proof fn clicks_cycle(
    t: ClickTracker,
    times: (u32, u32, u32),
    x: i32,
    y: i32,
    button: u8,
    slop: i32,
)
    requires
        slop >= 0,
        elapsed_ms(times.1, times.0) <= DOUBLE_CLICK_MS,
        elapsed_ms(times.2, times.1) <= DOUBLE_CLICK_MS,
        t.pressed(times.0, x, y, button, slop).count == 1,
    ensures
        ({
            let first = t.pressed(times.0, x, y, button, slop);
            let second = first.pressed(times.1, x, y, button, slop);
            let third = second.pressed(times.2, x, y, button, slop);
            second.count == 2 && third.count == 1
        }),
{
}

/// A table that differs only in what consistency does not speak of is as consistent.
pub proof fn consistency_carries_over(s: Seq<Win>, t: Seq<Win>)
    requires
        consistent(s),
        s.len() == t.len(),
        forall|i: int|
            0 <= i < s.len() ==> (#[trigger] t[i]).id == s[i].id && t[i].owner == s[i].owner
                && t[i].modal == s[i].modal && (t[i].paint.exposed matches Some(r) ==> exposure_bounds(
                r,
            )),
    ensures
        consistent(t),
{
    assert forall|i: int, j: int| 0 <= i < j < t.len() implies (#[trigger] t[i]).id != (
    #[trigger] t[j]).id by {
        assert(s[i].id != s[j].id);
    }
    assert forall|i: int| 0 <= i < t.len() implies ((#[trigger] t[i]).owner matches Some(o)
        ==> known_before(t, o, i)) by {
        if let Some(o) = t[i].owner {
            assert(s[i].owner == Some(o));
            let j = choose|j: int| 0 <= j < i && (#[trigger] s[j]).id == o;
            assert(t[j].id == o);
        }
    }
    assert forall|i: int| 0 <= i < t.len() && (#[trigger] t[i]).modal implies t[i].owner is Some by {
        assert(s[i].modal ==> s[i].owner is Some);
    }
}

/// Two presses of one button are a double click exactly when they are no more than the slop
/// apart, left or right and up or down, no more than four hundred milliseconds apart on a clock
/// that starts over at its end, and the first was not itself the second of two.
pub proof fn double_clicks_are_near_and_quick(
    t: ClickTracker,
    passed: u32,
    x: i32,
    y: i32,
    button: u8,
    slop: i32,
)
    ensures
        ({
            let time = ((t.time + passed) % 0x1_0000_0000) as u32;
            let after = t.pressed(time, x, y, button, slop);
            let dx = if x >= t.x { x - t.x } else { t.x - x };
            let dy = if y >= t.y { y - t.y } else { t.y - y };
            &&& elapsed_ms(time, t.time) == passed
            &&& after.count == 2 <==> dx <= slop && dy <= slop && passed <= 400 && button == t.button
                && t.count == 1
            &&& after.count == 1 || after.count == 2
            &&& after.time == time && after.x == x && after.y == y && after.button == button
        }),
{
}

/// A window found by its key has that key, and no older one has; where none is found, none has.
pub proof fn keys_find_their_window(s: Seq<Win>, key: Seq<char>)
    ensures
        keyed(s, key) matches Some(id) ==> exists|i: int|
            0 <= i < s.len() && (#[trigger] s[i]).id == id && (s[i].single matches Some(k) && k@
                == key) && forall|j: int|
                0 <= j < i ==> !((#[trigger] s[j]).single matches Some(k) && k@ == key),
        keyed(s, key) is None ==> forall|j: int|
            0 <= j < s.len() ==> !((#[trigger] s[j]).single matches Some(k) && k@ == key),
    decreases s.len(),
{
    if s.len() > 0 {
        let rest = s.skip(1);
        keys_find_their_window(rest, key);
        if text::opt_text(s[0].single) == Some(key) {
            assert(s[0].id == keyed(s, key).unwrap());
        } else if let Some(id) = keyed(rest, key) {
            let i = choose|i: int|
                0 <= i < rest.len() && (#[trigger] rest[i]).id == id && (rest[i].single matches Some(
                    k,
                ) && k@ == key) && forall|j: int|
                    0 <= j < i ==> !((#[trigger] rest[j]).single matches Some(k) && k@ == key);
            assert(s[i + 1].id == id);
            assert forall|j: int| 0 <= j < i + 1 implies !((#[trigger] s[j]).single matches Some(k)
                && k@ == key) by {
                if j > 0 {
                    assert(rest[j - 1] == s[j]);
                }
            }
        } else {
            assert forall|j: int| 0 <= j < s.len() implies !((#[trigger] s[j]).single matches Some(k)
                && k@ == key) by {
                if j > 0 {
                    assert(rest[j - 1] == s[j]);
                }
            }
        }
    }
}

/// The keys in use are the keys of the windows: as many as there are windows with a key, and each
/// of them one of a window that its key finds.
pub proof fn keys_in_use_are_the_windows_keys(s: Seq<Win>, key: Seq<char>)
    ensures
        keys_in_use(s).contains(key) <==> exists|i: int|
            0 <= i < s.len() && ((#[trigger] s[i]).single matches Some(k) && k@ == key),
        keys_in_use(s).contains(key) <==> keyed(s, key) is Some,
        keys_in_use(s).len() == s.filter(|w: Win| w.single is Some).len(),
    decreases s.len(),
{
    reveal(Seq::filter);
    keys_find_their_window(s, key);
    if s.len() > 0 {
        let init = s.drop_last();
        keys_in_use_are_the_windows_keys(init, key);
        let before = keys_in_use(init);
        let all = keys_in_use(s);
        if let Some(k) = s.last().single {
            assert(all == before.push(k@));
            assert(all[before.len() as int] == k@);
            if before.contains(key) {
                let p = choose|p: int| 0 <= p < before.len() && before[p] == key;
                assert(all[p] == key);
            }
        }
        if exists|i: int|
            0 <= i < s.len() && ((#[trigger] s[i]).single matches Some(k) && k@ == key) {
            let i = choose|i: int|
                0 <= i < s.len() && ((#[trigger] s[i]).single matches Some(k) && k@ == key);
            if i < init.len() {
                assert(init[i] == s[i]);
            }
        }
        if before.contains(key) {
            let i = choose|i: int|
                0 <= i < init.len() && ((#[trigger] init[i]).single matches Some(k) && k@ == key);
            assert(s[i] == init[i]);
        }
        if all.contains(key) && !before.contains(key) {
            assert(s[s.len() - 1] == s.last());
        }
    }
}

/// The modal window that takes the input is the first of those that the window owns.
pub proof fn the_first_modal_window_blocks(s: Seq<Win>, id: u32, i: int)
    requires
        0 <= i < s.len(),
        s[i].modal,
        s[i].owner == Some(id),
        forall|j: int| 0 <= j < i ==> !((#[trigger] s[j]).modal && s[j].owner == Some(id)),
    ensures
        blocker(s, id) == Some(s[i].id),
    decreases s.len(),
{
    if i > 0 {
        let rest = s.skip(1);
        assert(!(s[0].modal && s[0].owner == Some(id)));
        assert forall|j: int| 0 <= j < i - 1 implies !((#[trigger] rest[j]).modal && rest[j].owner
            == Some(id)) by {
            assert(rest[j] == s[j + 1]);
        }
        the_first_modal_window_blocks(rest, id, i - 1);
    }
}

/// Closing keeps the windows that are not closed, as they are and in their order, and no other.
pub proof fn closing_keeps_the_others(s: Seq<Win>, gone: Seq<u32>, i: int)
    requires
        0 <= i < s.len(),
    ensures
        !gone.contains(s[i].id) ==> without(s, gone).contains(s[i]),
        forall|k: int|
            0 <= k < without(s, gone).len() ==> !gone.contains((#[trigger] without(s, gone)[k]).id)
                && s.contains(without(s, gone)[k]),
        without(s, gone).len() <= s.len(),
        gone.len() == 0 ==> without(s, gone) == s,
{
    kept(s, gone);
    if !gone.contains(s[i].id) {
        assert(without(s, gone).contains(s[i]));
    }
    if gone.len() == 0 {
        nothing_gone(s, gone);
    }
}

proof fn kept(s: Seq<Win>, gone: Seq<u32>)
    ensures
        forall|i: int|
            0 <= i < s.len() && !gone.contains((#[trigger] s[i]).id) ==> without(s, gone).contains(
                s[i],
            ),
        forall|k: int|
            0 <= k < without(s, gone).len() ==> !gone.contains((#[trigger] without(s, gone)[k]).id)
                && s.contains(without(s, gone)[k]),
        without(s, gone).len() <= s.len(),
    decreases s.len(),
{
    reveal(Seq::filter);
    if s.len() > 0 {
        let init = s.drop_last();
        kept(init, gone);
        let before = without(init, gone);
        let all = without(s, gone);
        if !gone.contains(s.last().id) {
            assert(all == before.push(s.last()));
            assert(all[before.len() as int] == s.last());
        } else {
            assert(all == before);
        }
        assert forall|i: int| 0 <= i < s.len() && !gone.contains(
            (#[trigger] s[i]).id,
        ) implies all.contains(s[i]) by {
            if i < init.len() {
                assert(init[i] == s[i]);
                let k = choose|k: int| 0 <= k < before.len() && before[k] == s[i];
                assert(all[k] == s[i]);
            }
        }
        assert forall|k: int| 0 <= k < all.len() implies !gone.contains((#[trigger] all[k]).id)
            && s.contains(all[k]) by {
            if k < before.len() {
                assert(before[k] == all[k]);
                let j = choose|j: int| 0 <= j < init.len() && init[j] == before[k];
                assert(s[j] == all[k]);
            } else {
                assert(s[s.len() - 1] == all[k]);
            }
        }
    } else {
        assert(without(s, gone) =~= s);
    }
}

proof fn nothing_gone(s: Seq<Win>, gone: Seq<u32>)
    requires
        gone.len() == 0,
    ensures
        without(s, gone) == s,
    decreases s.len(),
{
    reveal(Seq::filter);
    if s.len() > 0 {
        nothing_gone(s.drop_last(), gone);
        assert(without(s, gone) == without(s.drop_last(), gone).push(s.last()));
        assert(s.drop_last().push(s.last()) =~= s);
    } else {
        assert(without(s, gone) =~= s);
    }
}

/// A window is in the table exactly when one of its entries has that id.
pub proof fn windows_are_known_by_their_id(w: Windows, id: u32)
    ensures
        w.has(id) <==> exists|i: int| 0 <= i < w.list@.len() && (#[trigger] w.list@[i]).id == id,
{
    position_finds(w.list@, id);
    if w.has(id) {
        assert(w.list@[position(w.list@, id)].id == id);
    }
}

} // verus!
