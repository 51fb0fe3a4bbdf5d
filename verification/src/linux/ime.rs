//! The input method: which window has which input context, and the text that is being
//! composed.

use super::input;
use crate::event::{Key, KeyEvent, Preedit};
use crate::text;
use std::collections::HashMap;
use vstd::prelude::*;
use vstd::std_specs::hash::*;

verus! {

/// A composition: its characters and its caret. The protocol sends changes, so the whole has to
/// be kept.
pub struct Composition {
    pub chars: Vec<char>,
    pub caret: usize,
}

/// How the caret moves.
#[derive(Clone, Copy, Debug, PartialEq, Eq, Structural)]
pub enum CaretDirection {
    AbsolutePosition,
    ForwardChar,
    BackwardChar,
    LineStart,
    LineEnd,
    /// A move that means nothing in a single line.
    Other,
}

/// A number held within `0..=len`.
pub open spec fn clamp_len(n: int, len: int) -> int {
    if n < 0 {
        0
    } else if n > len {
        len
    } else {
        n
    }
}

/// The text after `[first, first + len)` is replaced; what lies outside the text is cut off.
pub open spec fn spliced(cur: Seq<char>, first: int, len: int, insert: Seq<char>) -> Seq<char> {
    let from = clamp_len(first, cur.len() as int);
    let to = clamp_len(from + if len < 0 { 0 } else { len }, cur.len() as int);
    cur.take(from) + insert + cur.skip(to)
}

/// Replaces `[first, first + len)`. A span outside the text is cut off: a mistake of the input
/// method costs no more than the display.
pub fn splice(cur: &[char], first: i32, len: i32, insert: &[char]) -> (r: Vec<char>)
    ensures
        r@ == spliced(cur@, first as int, len as int, insert@),
{
    let n: usize = cur.len();
    let from: usize = if first < 0 {
        0
    } else if first as usize > n {
        n
    } else {
        first as usize
    };
    let count: usize = if len < 0 { 0 } else { len as usize };
    let to: usize = if count > n - from { n } else { from + count };
    let mut out = text::sub_chars(cur, 0, from);
    assert(out@ =~= cur@.take(from as int));
    text::push_all(&mut out, insert);
    let tail = text::sub_chars(cur, to, n);
    assert(tail@ =~= cur@.skip(to as int));
    text::push_all(&mut out, &tail);
    out
}

/// The compositions of the input contexts.
pub struct Bridge {
    pub preedit: HashMap<u16, Composition>,
}

/// The characters of a context's composition; none where it has no composition.
pub open spec fn composed(m: Map<u16, Composition>, ic: u16) -> Seq<char> {
    if m.dom().contains(ic) { m[ic].chars@ } else { Seq::empty() }
}

/// The caret of a context's composition.
pub open spec fn caret_in(m: Map<u16, Composition>, ic: u16) -> usize {
    if m.dom().contains(ic) { m[ic].caret } else { 0 }
}

/// Only context `ic` changed.
pub open spec fn only_changes(before: Map<u16, Composition>, after: Map<u16, Composition>, ic: u16) -> bool {
    after == before.insert(ic, after[ic]) && after.dom().contains(ic)
}

/// A composition as it is displayed: the caret stays within the text.
pub open spec fn displayed(p: Preedit, chars: Seq<char>, caret: usize) -> bool {
    &&& p.text@ == chars
    &&& p.caret == (if caret > chars.len() { chars.len() as usize } else { caret })
    &&& p.sel is None
}

/// Where the caret goes.
pub open spec fn caret_after(caret: usize, len: int, position: i32, direction: CaretDirection) -> int {
    clamp_len(
        match direction {
            CaretDirection::AbsolutePosition => position as int,
            CaretDirection::ForwardChar => caret + 1,
            CaretDirection::BackwardChar => if caret == 0 { 0 } else { caret - 1 },
            CaretDirection::LineStart => 0,
            CaretDirection::LineEnd => len,
            CaretDirection::Other => caret as int,
        },
        len,
    )
}

impl Bridge {
    pub fn new() -> (r: Bridge)
        ensures
            r.preedit@ == Map::<u16, Composition>::empty(),
    {
        Bridge { preedit: HashMap::new() }
    }

    fn take(&mut self, ic: u16) -> (r: Composition)
        ensures
            r.chars@ == composed(old(self).preedit@, ic),
            r.caret == caret_in(old(self).preedit@, ic),
            final(self).preedit@ == old(self).preedit@.remove(ic),
    {
        broadcast use group_hash_axioms;

        match self.preedit.remove(&ic) {
            Some(c) => c,
            None => Composition { chars: Vec::new(), caret: 0 },
        }
    }

    fn put(&mut self, ic: u16, c: Composition) -> (r: Preedit)
        ensures
            final(self).preedit@ == old(self).preedit@.insert(ic, c),
            displayed(r, c.chars@, c.caret),
    {
        broadcast use group_hash_axioms;

        let shown = text::string_of(&c.chars);
        let n: usize = c.chars.len();
        let caret: usize = if c.caret > n { n } else { c.caret };
        self.preedit.insert(ic, c);
        Preedit { text: shown, caret, sel: None }
    }

    /// A composition begins, empty.
    pub fn preedit_start(&mut self, ic: u16)
        ensures
            only_changes(old(self).preedit@, final(self).preedit@, ic),
            composed(final(self).preedit@, ic) == Seq::<char>::empty(),
            caret_in(final(self).preedit@, ic) == 0,
    {
        broadcast use group_hash_axioms;

        self.preedit.insert(ic, Composition { chars: Vec::new(), caret: 0 });
    }

    /// A part of a composition is replaced; `no_string` deletes it. What is displayed then is
    /// returned.
    pub fn preedit_draw(
        &mut self,
        ic: u16,
        caret: i32,
        first: i32,
        len: i32,
        no_string: bool,
        string: &str,
    ) -> (r: Preedit)
        ensures
            only_changes(old(self).preedit@, final(self).preedit@, ic),
            composed(final(self).preedit@, ic) == spliced(
                composed(old(self).preedit@, ic),
                first as int,
                len as int,
                if no_string { Seq::empty() } else { string@ },
            ),
            caret_in(final(self).preedit@, ic) == (if caret < 0 { 0 } else { caret as int }),
            displayed(
                r,
                composed(final(self).preedit@, ic),
                caret_in(final(self).preedit@, ic),
            ),
    {
        let old_text = self.take(ic);
        let insert: Vec<char> = if no_string { Vec::new() } else { text::chars_of(string) };
        let chars = splice(&old_text.chars, first, len, &insert);
        let at: usize = if caret < 0 { 0 } else { caret as usize };
        let r = self.put(ic, Composition { chars, caret: at });
        proof {
            assert(insert@ =~= if no_string { Seq::empty() } else { string@ });
            assert(self.preedit@ =~= old(self).preedit@.insert(ic, self.preedit@[ic]));
        }
        r
    }

    /// The caret of a composition moves; its new position and what is displayed are returned.
    pub fn preedit_caret(&mut self, ic: u16, position: i32, direction: CaretDirection) -> (r: (
        usize,
        Preedit,
    ))
        ensures
            only_changes(old(self).preedit@, final(self).preedit@, ic),
            composed(final(self).preedit@, ic) == composed(old(self).preedit@, ic),
            r.0 == caret_after(
                caret_in(old(self).preedit@, ic),
                composed(old(self).preedit@, ic).len() as int,
                position,
                direction,
            ),
            caret_in(final(self).preedit@, ic) == r.0,
            displayed(r.1, composed(final(self).preedit@, ic), r.0),
    {
        let mut c = self.take(ic);
        let len: usize = c.chars.len();
        let wanted: usize = match direction {
            CaretDirection::AbsolutePosition => if position < 0 {
                0
            } else {
                position as usize
            },
            CaretDirection::ForwardChar => if c.caret < len {
                c.caret + 1
            } else {
                len
            },
            CaretDirection::BackwardChar => if c.caret == 0 {
                0
            } else {
                c.caret - 1
            },
            CaretDirection::LineStart => 0,
            CaretDirection::LineEnd => len,
            CaretDirection::Other => c.caret,
        };
        c.caret = if wanted > len { len } else { wanted };
        let at: usize = c.caret;
        let shown = self.put(ic, c);
        proof {
            assert(self.preedit@ =~= old(self).preedit@.insert(ic, self.preedit@[ic]));
        }
        (at, shown)
    }

    /// A composition ends: nothing is displayed any more.
    pub fn preedit_done(&mut self, ic: u16) -> (r: Preedit)
        ensures
            final(self).preedit@ == old(self).preedit@.remove(ic),
            r.none(),
    {
        broadcast use group_hash_axioms;

        self.preedit.remove(&ic);
        Preedit::new()
    }
}

/// A window and its input context.
#[derive(Clone, Copy, Debug, PartialEq, Eq, Structural)]
pub struct Context {
    pub window: u32,
    pub ic: u16,
}

/// Where the candidates are shown, in the window.
#[derive(Clone, Copy, Debug, PartialEq, Eq, Structural)]
pub struct Spot {
    pub x: i16,
    pub y: i16,
}

/// Marks a request for a context whose window is gone.
pub const DEAD: u32 = 0;

/// The input contexts. Replies carry no window; they come in the order of the requests.
pub struct Ime {
    pub ready: bool,
    /// One entry a window.
    pub ics: Vec<Context>,
    /// The windows whose contexts are requested and not answered, oldest first.
    pub creating: Vec<u32>,
    /// Windows that came before the input method was ready.
    pub waiting: Vec<u32>,
    pub spots: HashMap<u32, Spot>,
    /// The window with the keyboard focus.
    pub focused: Option<u32>,
}

/// The context of a window.
pub open spec fn ic_for(s: Seq<Context>, window: u32) -> Option<u16>
    decreases s.len(),
{
    if s.len() == 0 {
        None
    } else if s[0].window == window {
        Some(s[0].ic)
    } else {
        ic_for(s.skip(1), window)
    }
}

/// The window of a context.
pub open spec fn window_with(s: Seq<Context>, ic: u16) -> Option<u32>
    decreases s.len(),
{
    if s.len() == 0 {
        None
    } else if s[0].ic == ic {
        Some(s[0].window)
    } else {
        window_with(s.skip(1), ic)
    }
}

/// No window has two contexts.
pub open spec fn one_each(s: Seq<Context>) -> bool {
    forall|i: int, j: int|
        0 <= i < j < s.len() ==> (#[trigger] s[i]).window != (#[trigger] s[j]).window
}

/// The contexts without that of a window.
pub open spec fn without_window(s: Seq<Context>, window: u32) -> Seq<Context> {
    s.filter(|c: Context| c.window != window)
}

/// What a reply to a request for a context comes to.
#[derive(Clone, Copy, Debug, PartialEq, Eq, Structural)]
pub enum IcStep {
    /// No window wants it: destroy it.
    Destroy,
    /// It is entered; `focus` it if its window has the focus, since the focus event came before
    /// there was a context.
    Entered { focus: bool },
}

proof fn ic_for_is(s: Seq<Context>, window: u32, k: int)
    requires
        0 <= k < s.len(),
        s[k].window == window,
        forall|j: int| 0 <= j < k ==> (#[trigger] s[j]).window != window,
    ensures
        ic_for(s, window) == Some(s[k].ic),
    decreases k,
{
    if k > 0 {
        assert forall|j: int| 0 <= j < k - 1 implies (#[trigger] s.skip(1)[j]).window != window by {
            assert(s.skip(1)[j] == s[j + 1]);
        }
        ic_for_is(s.skip(1), window, k - 1);
    }
}

proof fn ic_for_none(s: Seq<Context>, window: u32)
    requires
        forall|j: int| 0 <= j < s.len() ==> (#[trigger] s[j]).window != window,
    ensures
        ic_for(s, window) is None,
    decreases s.len(),
{
    if s.len() > 0 {
        assert forall|j: int| 0 <= j < s.skip(1).len() implies (#[trigger] s.skip(1)[j]).window
            != window by {
            assert(s.skip(1)[j] == s[j + 1]);
        }
        ic_for_none(s.skip(1), window);
    }
}

/// What is left without a window's contexts is none of that window.
proof fn filtered_apart(s: Seq<Context>, window: u32)
    ensures
        forall|i: int|
            0 <= i < without_window(s, window).len() ==> (#[trigger] without_window(
                s,
                window,
            )[i]).window != window,
        forall|i: int|
            0 <= i < without_window(s, window).len() ==> s.contains(
                #[trigger] without_window(s, window)[i],
            ),
    decreases s.len(),
{
    reveal(Seq::filter);
    if s.len() > 0 {
        let before = s.drop_last();
        filtered_apart(before, window);
        let a = without_window(before, window);
        let b = without_window(s, window);
        assert forall|i: int| 0 <= i < b.len() implies (#[trigger] b[i]).window != window
            && s.contains(b[i]) by {
            if i < a.len() {
                assert(b[i] == a[i]);
                assert(before.contains(a[i]));
                let k = choose|k: int| 0 <= k < before.len() && before[k] == a[i];
                assert(s[k] == b[i]);
            } else {
                assert(b[i] == s.last());
                assert(s[s.len() - 1] == b[i]);
            }
        }
    }
}

/// What is left without a window's contexts has one context a window still.
proof fn filtered_windows(s: Seq<Context>, window: u32)
    requires
        one_each(s),
    ensures
        one_each(without_window(s, window)),
        forall|i: int|
            0 <= i < without_window(s, window).len() ==> (#[trigger] without_window(
                s,
                window,
            )[i]).window != window && s.contains(without_window(s, window)[i]),
    decreases s.len(),
{
    reveal(Seq::filter);
    if s.len() > 0 {
        let before = s.drop_last();
        filtered_windows(before, window);
        filtered_apart(before, window);
        let a = without_window(before, window);
        let b = without_window(s, window);
        if s.last().window != window {
            assert(b =~= a.push(s.last()));
            assert forall|i: int, j: int| 0 <= i < j < b.len() implies (#[trigger] b[i]).window != (
            #[trigger] b[j]).window by {
                if j == a.len() {
                    assert(before.contains(a[i]));
                    let k = choose|k: int| 0 <= k < before.len() && before[k] == a[i];
                    assert(s[k].window != s[s.len() - 1].window);
                } else {
                    assert(a[i].window != a[j].window);
                }
            }
        } else {
            assert(b =~= a);
        }
    }
    filtered_apart(s, window);
}

impl Ime {
    pub open spec fn wf(self) -> bool {
        one_each(self.ics@)
    }

    pub fn new() -> (r: Ime)
        ensures
            r.wf(),
            !r.ready,
            r.ics@.len() == 0 && r.creating@.len() == 0 && r.waiting@.len() == 0,
            r.spots@ == Map::<u32, Spot>::empty(),
            r.focused is None,
    {
        Ime {
            ready: false,
            ics: Vec::new(),
            creating: Vec::new(),
            waiting: Vec::new(),
            spots: HashMap::new(),
            focused: None,
        }
    }

    /// The context of a window, to which its keys are forwarded; without one they are handled
    /// here.
    pub fn ic_of(&self, window: u32) -> (r: Option<u16>)
        ensures
            r == ic_for(self.ics@, window),
    {
        let mut i: usize = 0;
        while i < self.ics.len()
            invariant
                i <= self.ics@.len(),
                forall|j: int| 0 <= j < i ==> (#[trigger] self.ics@[j]).window != window,
            decreases self.ics@.len() - i,
        {
            if self.ics[i].window == window {
                proof {
                    ic_for_is(self.ics@, window, i as int);
                }
                return Some(self.ics[i].ic);
            }
            i += 1;
        }
        proof {
            ic_for_none(self.ics@, window);
        }
        None
    }

    /// The window of a context.
    pub fn window_of(&self, ic: u16) -> (r: Option<u32>)
        ensures
            r == window_with(self.ics@, ic),
    {
        let mut i: usize = 0;
        assert(self.ics@.skip(0) =~= self.ics@);
        while i < self.ics.len()
            invariant
                i <= self.ics@.len(),
                window_with(self.ics@.skip(i as int), ic) == window_with(self.ics@, ic),
            decreases self.ics@.len() - i,
        {
            assert(self.ics@.skip(i as int).skip(1) =~= self.ics@.skip(i + 1));
            if self.ics[i].ic == ic {
                return Some(self.ics[i].window);
            }
            i += 1;
        }
        None
    }

    /// The input method is ready: the windows that waited, in order, now get their contexts.
    pub fn on_ready(&mut self) -> (r: Vec<u32>)
        ensures
            r@ == old(self).waiting@,
            final(self).ready,
            final(self).waiting@ == Seq::<u32>::empty(),
            final(self).ics == old(self).ics && final(self).creating == old(self).creating
                && final(self).spots == old(self).spots && final(self).focused == old(
                self,
            ).focused,
    {
        self.ready = true;
        let mut out: Vec<u32> = Vec::new();
        core::mem::swap(&mut out, &mut self.waiting);
        out
    }

    /// A window wants a context. Says whether to request one now; before the input method is
    /// ready the window waits.
    pub fn create_ic(&mut self, window: u32) -> (r: bool)
        ensures
            r == old(self).ready,
            final(self).waiting@ == (if r {
                old(self).waiting@
            } else {
                old(self).waiting@.push(window)
            }),
            *final(self) == (Ime { waiting: final(self).waiting, ..*old(self) }),
    {
        if self.ready {
            return true;
        }
        self.waiting.push(window);
        false
    }

    /// A request for a context went out.
    pub fn ic_requested(&mut self, window: u32)
        ensures
            final(self).creating@ == old(self).creating@.push(window),
            *final(self) == (Ime { creating: final(self).creating, ..*old(self) }),
    {
        self.creating.push(window);
    }

    /// A context was created: it belongs to the oldest unanswered request.
    pub fn ic_created(&mut self, ic: u16) -> (r: IcStep)
        requires
            old(self).wf(),
        ensures
            final(self).wf(),
            ({
                let q = old(self).creating@;
                if q.len() == 0 {
                    &&& r == IcStep::Destroy
                    &&& *final(self) == *old(self)
                } else {
                    &&& final(self).creating@ == q.skip(1)
                    &&& *final(self) == (Ime {
                        creating: final(self).creating,
                        ics: final(self).ics,
                        ..*old(self)
                    })
                    &&& r == (if q[0] == DEAD {
                        IcStep::Destroy
                    } else {
                        IcStep::Entered { focus: old(self).focused == Some(q[0]) }
                    })
                }
            }),
            final(self).ics@ == contexts_after(old(self).ics@, old(self).creating@, ic),
    {
        if self.creating.len() == 0 {
            return IcStep::Destroy;
        }
        let window: u32 = self.creating.remove(0);
        proof {
            assert(self.creating@ =~= old(self).creating@.skip(1));
        }
        if window == DEAD {
            return IcStep::Destroy;
        }
        self.drop_context(window);
        let ghost kept = self.ics@;
        self.ics.push(Context { window, ic });
        proof {
            filtered_windows(old(self).ics@, window);
            assert forall|i: int, j: int| 0 <= i < j < self.ics@.len() implies (
            #[trigger] self.ics@[i]).window != (#[trigger] self.ics@[j]).window by {
                if j == kept.len() {
                    assert(without_window(old(self).ics@, window)[i].window != window);
                } else {
                    assert(kept[i].window != kept[j].window);
                }
            }
        }
        let focus = match self.focused {
            Some(f) => f == window,
            None => false,
        };
        IcStep::Entered { focus }
    }

    fn drop_context(&mut self, window: u32)
        ensures
            final(self).ics@ == without_window(old(self).ics@, window),
            *final(self) == (Ime { ics: final(self).ics, ..*old(self) }),
    {
        let ghost all = self.ics@;
        let ghost keep = |c: Context| c.window != window;
        let mut i: usize = 0;
        let ghost mut seen: int = 0;
        reveal(Seq::filter);
        assert(self.ics@ =~= all.take(0).filter(keep) + all.skip(0));
        while i < self.ics.len()
            invariant
                0 <= seen <= all.len(),
                i == all.take(seen).filter(keep).len(),
                self.ics@ == all.take(seen).filter(keep) + all.skip(seen),
                *self == (Ime { ics: self.ics, ..*old(self) }),
                keep == (|c: Context| c.window != window),
            decreases all.len() - seen,
        {
            proof {
                assert(self.ics@[i as int] == all.skip(seen)[0]);
                assert(all.take(seen + 1).drop_last() =~= all.take(seen));
                reveal(Seq::filter);
            }
            let ghost kept = all.take(seen).filter(keep);
            if self.ics[i].window == window {
                self.ics.remove(i);
                assert(self.ics@ =~= kept + all.skip(seen + 1));
            } else {
                assert(self.ics@ =~= kept.push(all[seen]) + all.skip(seen + 1));
                i += 1;
            }
            proof {
                seen = seen + 1;
            }
        }
        assert(all.take(seen) =~= all);
        assert(self.ics@ =~= all.filter(keep));
    }

    /// A window goes away: what it waited for is forgotten, a request of its that is not
    /// answered yet is marked, and the context to destroy is returned.
    pub fn destroy_ic(&mut self, window: u32) -> (r: Option<u16>)
        requires
            old(self).wf(),
        ensures
            final(self).wf(),
            r == ic_for(old(self).ics@, window),
            final(self).ics@ == without_window(old(self).ics@, window),
            final(self).waiting@ == old(self).waiting@.filter(|w: u32| w != window),
            final(self).creating@ == requests_without(old(self).creating@, window),
            final(self).focused == (if old(self).focused == Some(window) {
                None
            } else {
                old(self).focused
            }),
            final(self).spots@ == old(self).spots@.remove(window),
            final(self).ready == old(self).ready,
    {
        broadcast use group_hash_axioms;

        let r = self.ic_of(window);
        self.drop_context(window);
        proof {
            filtered_windows(old(self).ics@, window);
        }
        self.drop_waiting(window);
        self.mark_dead(window);
        if let Some(f) = self.focused {
            if f == window {
                self.focused = None;
            }
        }
        self.spots.remove(&window);
        r
    }

    fn drop_waiting(&mut self, window: u32)
        ensures
            final(self).waiting@ == old(self).waiting@.filter(|w: u32| w != window),
            *final(self) == (Ime { waiting: final(self).waiting, ..*old(self) }),
    {
        let ghost all = self.waiting@;
        let ghost keep = |w: u32| w != window;
        let mut i: usize = 0;
        let ghost mut seen: int = 0;
        reveal(Seq::filter);
        assert(self.waiting@ =~= all.take(0).filter(keep) + all.skip(0));
        while i < self.waiting.len()
            invariant
                0 <= seen <= all.len(),
                i == all.take(seen).filter(keep).len(),
                self.waiting@ == all.take(seen).filter(keep) + all.skip(seen),
                *self == (Ime { waiting: self.waiting, ..*old(self) }),
                keep == (|w: u32| w != window),
            decreases all.len() - seen,
        {
            proof {
                assert(self.waiting@[i as int] == all.skip(seen)[0]);
                assert(all.take(seen + 1).drop_last() =~= all.take(seen));
                reveal(Seq::filter);
            }
            let ghost kept = all.take(seen).filter(keep);
            if self.waiting[i] == window {
                self.waiting.remove(i);
                assert(self.waiting@ =~= kept + all.skip(seen + 1));
            } else {
                assert(self.waiting@ =~= kept.push(all[seen]) + all.skip(seen + 1));
                i += 1;
            }
            proof {
                seen = seen + 1;
            }
        }
        assert(all.take(seen) =~= all);
        assert(self.waiting@ =~= all.filter(keep));
    }

    fn mark_dead(&mut self, window: u32)
        ensures
            final(self).creating@ == requests_without(old(self).creating@, window),
            *final(self) == (Ime { creating: final(self).creating, ..*old(self) }),
    {
        let ghost all = self.creating@;
        let n: usize = self.creating.len();
        let mut i: usize = 0;
        while i < n
            invariant
                i <= n,
                n == all.len(),
                n == self.creating@.len(),
                *self == (Ime { creating: self.creating, ..*old(self) }),
                forall|j: int|
                    0 <= j < i ==> #[trigger] self.creating@[j] == (if all[j] == window {
                        DEAD
                    } else {
                        all[j]
                    }),
                forall|j: int| i <= j < n ==> #[trigger] self.creating@[j] == all[j],
            decreases n - i,
        {
            if self.creating[i] == window {
                self.creating[i] = DEAD;
            }
            i += 1;
        }
        assert(self.creating@ =~= requests_without(all, window));
    }

    /// The keyboard focus changes; the context to focus or unfocus is returned, where the
    /// window has one.
    pub fn focus(&mut self, window: u32, on: bool) -> (r: Option<u16>)
        ensures
            r == ic_for(old(self).ics@, window),
            final(self).focused == (if on {
                Some(window)
            } else if old(self).focused == Some(window) {
                None
            } else {
                old(self).focused
            }),
            *final(self) == (Ime { focused: final(self).focused, ..*old(self) }),
    {
        if on {
            self.focused = Some(window);
        } else if let Some(f) = self.focused {
            if f == window {
                self.focused = None;
            }
        }
        self.ic_of(window)
    }

    /// A composition is given up: its text is forgotten, and the context to reset is returned.
    pub fn reset(&self, bridge: &mut Bridge, window: u32) -> (r: Option<u16>)
        ensures
            r == ic_for(self.ics@, window),
            final(bridge).preedit@ == (match r {
                Some(ic) => old(bridge).preedit@.remove(ic),
                None => old(bridge).preedit@,
            }),
    {
        broadcast use group_hash_axioms;

        let r = self.ic_of(window);
        if let Some(ic) = r {
            bridge.preedit.remove(&ic);
        }
        r
    }

    /// The caret moved: where the candidates go, if that is news. A window without a context
    /// has no candidates.
    pub fn set_spot(&mut self, window: u32, x: i32, y: i32) -> (r: Option<(u16, Spot)>)
        ensures
            ({
                let spot = spot_at(x, y);
                let ic = ic_for(old(self).ics@, window);
                let same = old(self).spots@.dom().contains(window) && old(self).spots@[window]
                    == spot;
                &&& r == (if ic is None || same { None } else { Some((ic.unwrap(), spot)) })
                &&& final(self).spots@ == (if r is Some {
                    old(self).spots@.insert(window, spot)
                } else {
                    old(self).spots@
                })
            }),
            *final(self) == (Ime { spots: final(self).spots, ..*old(self) }),
    {
        broadcast use group_hash_axioms;

        let ic: u16 = match self.ic_of(window) {
            Some(ic) => ic,
            None => {
                return None;
            },
        };
        let spot = Spot { x: clamp_spot(x), y: clamp_spot(y) };
        if let Some(old_spot) = self.spots.get(&window) {
            if old_spot.x == spot.x && old_spot.y == spot.y {
                return None;
            }
        }
        self.spots.insert(window, spot);
        Some((ic, spot))
    }
}

/// A coordinate that the protocol can hold.
pub open spec fn spot_coordinate(v: i32) -> i16 {
    if v < 0 {
        0
    } else if v > i16::MAX {
        i16::MAX
    } else {
        v as i16
    }
}

/// A place that the protocol can hold.
pub open spec fn spot_at(x: i32, y: i32) -> Spot {
    Spot { x: spot_coordinate(x), y: spot_coordinate(y) }
}

fn clamp_spot(v: i32) -> (r: i16)
    ensures
        r == spot_coordinate(v),
{
    if v < 0 {
        0
    } else if v > i16::MAX as i32 {
        i16::MAX
    } else {
        v as i16
    }
}

/// The typed characters of a text, without control characters.
pub open spec fn typed_text(s: Seq<char>) -> Seq<KeyEvent>
    decreases s.len(),
{
    if s.len() == 0 {
        Seq::empty()
    } else if text::control(s.last()) {
        typed_text(s.drop_last())
    } else {
        typed_text(s.drop_last()).push(input::typed(s.last()))
    }
}

/// The events of a committed text. The host ends the composition first, so that the text goes
/// where the composition began.
pub fn commit_events(committed: &str) -> (r: Vec<KeyEvent>)
    ensures
        r@ == typed_text(committed@),
{
    let mut out: Vec<KeyEvent> = Vec::new();
    let ghost all = committed@;
    for c in it: committed.chars()
        invariant
            it.seq() == all,
            out@ == typed_text(all.take(it.index() as int)),
    {
        assert(all.take(it.index() + 1).drop_last() =~= all.take(it.index() as int));
        if !text::is_control(c) {
            out.push(
                KeyEvent {
                    key: Key::Char(c),
                    pressed: true,
                    shift: false,
                    ctrl: false,
                    alt: false,
                    meta: false,
                },
            );
        }
    }
    assert(all.take(all.len() as int) =~= all);
    out
}

/// The locale that the input method is opened with: the first setting that is set and not
/// empty, up to its encoding; `C` where that leaves nothing.
pub open spec fn locale_of(settings: Seq<Option<Seq<char>>>) -> Seq<char>
    decreases settings.len(),
{
    if settings.len() == 0 {
        "C"@
    } else {
        match settings[0] {
            Some(v) => if v.len() > 0 {
                let name = v.take(text::first_at(v, '.', 0));
                if name.len() == 0 { "C"@ } else { name }
            } else {
                locale_of(settings.skip(1))
            },
            None => locale_of(settings.skip(1)),
        }
    }
}

/// The locale for the input method, from the values of `LC_ALL`, `LC_CTYPE` and `LANG` in that
/// order.
pub fn xim_locale(settings: &Vec<Option<String>>) -> (r: String)
    ensures
        r@ == locale_of(
            Seq::new(settings@.len(), |i: int| text::opt_text(settings@[i])),
        ),
{
    let ghost all = Seq::new(settings@.len(), |i: int| text::opt_text(settings@[i]));
    let mut i: usize = 0;
    assert(all.skip(0) =~= all);
    while i < settings.len()
        invariant
            i <= settings@.len(),
            all == Seq::new(settings@.len(), |i: int| text::opt_text(settings@[i])),
            locale_of(all.skip(i as int)) == locale_of(all),
        decreases settings@.len() - i,
    {
        assert(all.skip(i as int).skip(1) =~= all.skip(i + 1));
        assert(all.skip(i as int)[0] == text::opt_text(settings@[i as int]));
        if let Some(v) = &settings[i] {
            let chars = text::chars_of(v.as_str());
            if chars.len() > 0 {
                let dot: usize = text::find(&chars, '.', 0);
                if dot == 0 {
                    return "C".to_owned();
                }
                let name = text::sub_chars(&chars, 0, dot);
                assert(name@ =~= v@.take(dot as int));
                return text::string_of(&name);
            }
        }
        i += 1;
    }
    "C".to_owned()
}

/// The contexts after a context was created: it belongs to the oldest unanswered request, and to
/// nobody where that was dropped.
pub open spec fn contexts_after(ics: Seq<Context>, creating: Seq<u32>, ic: u16) -> Seq<Context> {
    if creating.len() == 0 || creating[0] == DEAD {
        ics
    } else {
        without_window(ics, creating[0]).push(Context { window: creating[0], ic })
    }
}

/// The requests that are still unanswered after a context was created.
pub open spec fn requests_after(creating: Seq<u32>) -> Seq<u32> {
    if creating.len() == 0 { creating } else { creating.skip(1) }
}

/// The requests after a window went away.
pub open spec fn requests_without(creating: Seq<u32>, window: u32) -> Seq<u32> {
    Seq::new(
        creating.len(),
        |i: int| if creating[i] == window { DEAD } else { creating[i] },
    )
}

/// The contexts after a series of replies.
pub open spec fn contexts_after_all(
    ics: Seq<Context>,
    creating: Seq<u32>,
    replies: Seq<u16>,
) -> Seq<Context>
    decreases replies.len(),
{
    if replies.len() == 0 {
        ics
    } else {
        contexts_after_all(
            contexts_after(ics, creating, replies[0]),
            requests_after(creating),
            replies.skip(1),
        )
    }
}

/// A window that is gone gets no context any more: whatever requests were unanswered when it went,
/// and whatever replies come in, no context belongs to it.
pub proof fn gone_windows_get_no_context(
    ics: Seq<Context>,
    creating: Seq<u32>,
    window: u32,
    replies: Seq<u16>,
)
    requires
        window != DEAD,
    ensures
        forall|i: int|
            0 <= i < contexts_after_all(
                without_window(ics, window),
                requests_without(creating, window),
                replies,
            ).len() ==> (#[trigger] contexts_after_all(
                without_window(ics, window),
                requests_without(creating, window),
                replies,
            )[i]).window != window,
{
    reveal(Seq::filter);
    filtered_apart(ics, window);
    never_again(without_window(ics, window), requests_without(creating, window), window, replies);
}

proof fn never_again(ics: Seq<Context>, creating: Seq<u32>, window: u32, replies: Seq<u16>)
    requires
        window != DEAD,
        forall|i: int| 0 <= i < ics.len() ==> (#[trigger] ics[i]).window != window,
        forall|i: int| 0 <= i < creating.len() ==> #[trigger] creating[i] != window,
    ensures
        forall|i: int|
            0 <= i < contexts_after_all(ics, creating, replies).len() ==> (
            #[trigger] contexts_after_all(ics, creating, replies)[i]).window != window,
    decreases replies.len(),
{
    if replies.len() > 0 {
        let next = contexts_after(ics, creating, replies[0]);
        if creating.len() > 0 && creating[0] != DEAD {
            filtered_apart(ics, creating[0]);
            let kept = without_window(ics, creating[0]);
            assert forall|i: int| 0 <= i < next.len() implies (#[trigger] next[i]).window
                != window by {
                if i < kept.len() {
                    assert(ics.contains(kept[i]));
                }
            }
        }
        let rest = replies.skip(1);
        never_again(next, requests_after(creating), window, rest);
        assert forall|i: int|
            0 <= i < contexts_after_all(ics, creating, replies).len() implies (
        #[trigger] contexts_after_all(ics, creating, replies)[i]).window != window by {
            assert(contexts_after_all(next, requests_after(creating), rest)[i].window != window);
        }
    }
}

/// Replacing a span that lies in the text changes nothing outside it, and the length by the
/// difference.
pub proof fn splice_keeps_the_rest(cur: Seq<char>, first: int, len: int, insert: Seq<char>)
    requires
        0 <= first,
        0 <= len,
        first + len <= cur.len(),
    ensures
        ({
            let r = spliced(cur, first, len, insert);
            &&& r.len() == cur.len() - len + insert.len()
            &&& r.take(first) == cur.take(first)
            &&& r.subrange(first, first + insert.len()) == insert
            &&& r.skip(first + insert.len()) == cur.skip(first + len)
        }),
{
}

/// A span beyond the text is cut off at its end, and one before it at its beginning: a text is
/// appended behind the end, and put before the beginning.
pub proof fn spans_are_cut_off(cur: Seq<char>, first: int, len: int, insert: Seq<char>)
    ensures
        first >= cur.len() ==> spliced(cur, first, len, insert) == cur + insert,
        first <= 0 && len <= 0 ==> spliced(cur, first, len, insert) == insert + cur,
        first <= 0 && len >= cur.len() ==> spliced(cur, first, len, insert) == insert,
        0 <= first <= cur.len() && first + len >= cur.len() && len >= 0 ==> spliced(
            cur,
            first,
            len,
            insert,
        ) == cur.take(first) + insert,
        0 <= first <= cur.len() && len <= 0 ==> spliced(cur, first, len, insert) == cur.take(first)
            + insert + cur.skip(first),
{
    let r = spliced(cur, first, len, insert);
    if first >= cur.len() {
        assert(r =~= cur + insert);
    }
    if first <= 0 && len <= 0 {
        assert(r =~= insert + cur);
    }
    if first <= 0 && len >= cur.len() {
        assert(r =~= insert);
    }
}

/// A change is undone by putting back what was replaced.
pub proof fn changes_can_be_undone(cur: Seq<char>, first: int, len: int, insert: Seq<char>)
    requires
        0 <= first,
        0 <= len,
        first + len <= cur.len(),
    ensures
        spliced(
            spliced(cur, first, len, insert),
            first,
            insert.len() as int,
            cur.subrange(first, first + len),
        ) == cur,
{
    let once = spliced(cur, first, len, insert);
    let back = spliced(once, first, insert.len() as int, cur.subrange(first, first + len));
    assert(once =~= cur.take(first) + insert + cur.skip(first + len));
    assert(back =~= cur);
}

/// The caret stays in the text. A step forward and one back meet again, the ends are the ends,
/// and an absolute position in the text is that position.
pub proof fn the_caret_stays_in_the_text(caret: usize, len: int, position: i32)
    requires
        0 <= len <= usize::MAX,
        caret <= len,
    ensures
        0 <= caret_after(caret, len, position, CaretDirection::AbsolutePosition) <= len,
        0 <= position <= len ==> caret_after(caret, len, position, CaretDirection::AbsolutePosition)
            == position,
        position > len ==> caret_after(caret, len, position, CaretDirection::AbsolutePosition) == len,
        position < 0 ==> caret_after(caret, len, position, CaretDirection::AbsolutePosition) == 0,
        caret < len ==> caret_after(caret, len, position, CaretDirection::ForwardChar) == caret + 1,
        caret == len ==> caret_after(caret, len, position, CaretDirection::ForwardChar) == len,
        caret > 0 ==> caret_after(caret, len, position, CaretDirection::BackwardChar) == caret - 1,
        caret == 0 ==> caret_after(caret, len, position, CaretDirection::BackwardChar) == 0,
        caret_after(caret, len, position, CaretDirection::LineStart) == 0,
        caret_after(caret, len, position, CaretDirection::LineEnd) == len,
        caret_after(caret, len, position, CaretDirection::Other) == caret,
        caret < len ==> caret_after(
            caret_after(caret, len, position, CaretDirection::ForwardChar) as usize,
            len,
            position,
            CaretDirection::BackwardChar,
        ) == caret,
{
}

proof fn window_with_is(s: Seq<Context>, ic: u16, k: int)
    requires
        0 <= k < s.len(),
        s[k].ic == ic,
        forall|j: int| 0 <= j < k ==> (#[trigger] s[j]).ic != ic,
    ensures
        window_with(s, ic) == Some(s[k].window),
    decreases k,
{
    if k > 0 {
        let rest = s.skip(1);
        assert forall|j: int| 0 <= j < k - 1 implies (#[trigger] rest[j]).ic != ic by {
            assert(rest[j] == s[j + 1]);
        }
        window_with_is(rest, ic, k - 1);
    }
}

/// Windows and contexts belong to each other: each entry of the table is found by its window and
/// by its context, where neither occurs twice.
pub proof fn contexts_and_windows_pair_up(s: Seq<Context>, k: int)
    requires
        0 <= k < s.len(),
        one_each(s),
        forall|i: int, j: int| 0 <= i < j < s.len() ==> (#[trigger] s[i]).ic != (#[trigger] s[j]).ic,
    ensures
        ic_for(s, s[k].window) == Some(s[k].ic),
        window_with(s, s[k].ic) == Some(s[k].window),
{
    assert forall|j: int| 0 <= j < k implies (#[trigger] s[j]).window != s[k].window && s[j].ic
        != s[k].ic by {}
    ic_for_is(s, s[k].window, k);
    window_with_is(s, s[k].ic, k);
}

/// A window that is in no entry has no context, and the other way round.
pub proof fn strangers_have_no_context(s: Seq<Context>, window: u32, ic: u16)
    ensures
        ic_for(s, window) is None <==> forall|j: int|
            0 <= j < s.len() ==> (#[trigger] s[j]).window != window,
        window_with(s, ic) is None <==> forall|j: int| 0 <= j < s.len() ==> (#[trigger] s[j]).ic != ic,
    decreases s.len(),
{
    if s.len() > 0 {
        let rest = s.skip(1);
        strangers_have_no_context(rest, window, ic);
        if ic_for(s, window) is None {
            assert forall|j: int| 0 <= j < s.len() implies (#[trigger] s[j]).window != window by {
                if j > 0 {
                    assert(rest[j - 1] == s[j]);
                }
            }
        } else if s[0].window != window {
            let j = choose|j: int| 0 <= j < rest.len() && (#[trigger] rest[j]).window == window;
            assert(s[j + 1].window == window);
        }
        if window_with(s, ic) is None {
            assert forall|j: int| 0 <= j < s.len() implies (#[trigger] s[j]).ic != ic by {
                if j > 0 {
                    assert(rest[j - 1] == s[j]);
                }
            }
        } else if s[0].ic != ic {
            let j = choose|j: int| 0 <= j < rest.len() && (#[trigger] rest[j]).ic == ic;
            assert(s[j + 1].ic == ic);
        }
    }
}

proof fn others_keep_their_context(s: Seq<Context>, gone: u32, window: u32)
    requires
        gone != window,
    ensures
        ic_for(without_window(s, gone), window) == ic_for(s, window),
    decreases s.len(),
{
    reveal(Seq::filter);
    if s.len() > 0 {
        let init = s.drop_last();
        others_keep_their_context(init, gone, window);
        one_more_context(init, s.last(), window);
        assert(init.push(s.last()) =~= s);
        if s.last().window != gone {
            one_more_context(without_window(init, gone), s.last(), window);
        }
    } else {
        assert(without_window(s, gone) =~= s);
    }
}

proof fn one_more_context(s: Seq<Context>, c: Context, window: u32)
    ensures
        ic_for(s.push(c), window) == (if ic_for(s, window) is Some {
            ic_for(s, window)
        } else if c.window == window {
            Some(c.ic)
        } else {
            None
        }),
    decreases s.len(),
{
    let all = s.push(c);
    if s.len() > 0 {
        assert(all.skip(1) =~= s.skip(1).push(c));
        assert(all[0] == s[0]);
        one_more_context(s.skip(1), c, window);
    } else {
        assert(all.skip(1) =~= Seq::<Context>::empty());
        assert(ic_for(all.skip(1), window) is None);
        assert(all[0] == c);
    }
}

/// A created context goes to the window that asked first and was not closed since; the contexts
/// of the other windows stay.
pub proof fn contexts_go_to_the_first_that_asked(
    ics: Seq<Context>,
    creating: Seq<u32>,
    ic: u16,
    other: u32,
)
    requires
        creating.len() > 0,
        creating[0] != 0,
        other != creating[0],
    ensures
        ic_for(contexts_after(ics, creating, ic), creating[0]) == Some(ic),
        ic_for(contexts_after(ics, creating, ic), other) == ic_for(ics, other),
        requests_after(creating).len() == creating.len() - 1,
        forall|i: int|
            0 <= i < creating.len() - 1 ==> #[trigger] requests_after(creating)[i] == creating[i + 1],
{
    let window = creating[0];
    let kept = without_window(ics, window);
    filtered_apart(ics, window);
    ic_for_none(kept, window);
    one_more_context(kept, Context { window, ic }, window);
    one_more_context(kept, Context { window, ic }, other);
    others_keep_their_context(ics, window, other);
}

/// Replies belong to the requests in their order: of as many replies as requests, each window
/// gets the one at the place where it asked.
pub proof fn replies_come_in_order(
    ics: Seq<Context>,
    creating: Seq<u32>,
    replies: Seq<u16>,
    i: int,
)
    requires
        replies.len() == creating.len(),
        0 <= i < creating.len(),
        creating.no_duplicates(),
        creating[i] != 0,
    ensures
        ic_for(contexts_after_all(ics, creating, replies), creating[i]) == Some(replies[i]),
    decreases creating.len(),
{
    let next = contexts_after(ics, creating, replies[0]);
    let rest = requests_after(creating);
    let more = replies.skip(1);
    assert(rest == creating.skip(1));
    assert(rest.no_duplicates());
    if i > 0 {
        assert(rest[i - 1] == creating[i]);
        assert(more[i - 1] == replies[i]);
        replies_come_in_order(next, rest, more, i - 1);
    } else {
        contexts_go_to_the_first_that_asked(
            ics,
            creating,
            replies[0],
            if creating[0] == 1 { 2 } else { 1 },
        );
        assert forall|j: int| 0 <= j < rest.len() implies #[trigger] rest[j] != creating[0] by {
            assert(rest[j] == creating[j + 1]);
        }
        contexts_stay(next, rest, more, creating[0]);
    }
}

proof fn contexts_stay(ics: Seq<Context>, creating: Seq<u32>, replies: Seq<u16>, window: u32)
    requires
        forall|j: int| 0 <= j < creating.len() ==> #[trigger] creating[j] != window,
    ensures
        ic_for(contexts_after_all(ics, creating, replies), window) == ic_for(ics, window),
    decreases replies.len(),
{
    if replies.len() > 0 {
        let next = contexts_after(ics, creating, replies[0]);
        if creating.len() > 0 && creating[0] != DEAD {
            contexts_go_to_the_first_that_asked(ics, creating, replies[0], window);
        }
        contexts_stay(next, requests_after(creating), replies.skip(1), window);
    }
}

/// A place is held within what the protocol can say: nothing below zero and nothing above 32767;
/// a place between them is kept.
pub proof fn spots_are_held_in_range(x: i32, y: i32)
    ensures
        ({
            let s = spot_at(x, y);
            &&& 0 <= s.x && 0 <= s.y
            &&& 0 <= x <= 32767 ==> s.x == x
            &&& 0 <= y <= 32767 ==> s.y == y
            &&& x < 0 ==> s.x == 0
            &&& y < 0 ==> s.y == 0
            &&& x > 32767 ==> s.x == 32767
            &&& y > 32767 ==> s.y == 32767
        }),
{
}

/// A committed text is typed character by character, in its order: each that is no control
/// character is one key press without modifiers, and a control character is none.
pub proof fn committed_text_is_typed(a: Seq<char>, b: Seq<char>, c: char)
    ensures
        typed_text(a + b) == typed_text(a) + typed_text(b),
        (c as u32) < 0x20 || 0x7f <= (c as u32) <= 0x9f ==> typed_text(seq![c]).len() == 0,
        !((c as u32) < 0x20 || 0x7f <= (c as u32) <= 0x9f) ==> {
            let e = typed_text(seq![c]);
            e.len() == 1 && e[0].key == Key::Char(c) && e[0].pressed && input::carries_none(e[0])
        },
    decreases b.len(),
{
    let one = seq![c];
    assert(one.drop_last() =~= Seq::<char>::empty());
    assert(one.last() == c);
    assert(typed_text(one.drop_last()) =~= Seq::<KeyEvent>::empty());
    if b.len() == 0 {
        assert(a + b =~= a);
        assert(typed_text(a) + typed_text(b) =~= typed_text(a));
    } else {
        committed_text_is_typed(a, b.drop_last(), c);
        assert((a + b).drop_last() =~= a + b.drop_last());
        assert((a + b).last() == b.last());
        assert(typed_text(a + b) =~= typed_text(a) + typed_text(b));
    }
}

/// The input method's locale is the first setting that says anything, up to its encoding; where
/// none does, or it begins with the encoding, it is `C`.
pub proof fn the_first_locale_counts(
    settings: Seq<Option<Seq<char>>>,
    name: Seq<char>,
    rest: Seq<char>,
    i: int,
)
    requires
        0 <= i < settings.len(),
        forall|j: int|
            0 <= j < i ==> (#[trigger] settings[j] is None || settings[j] == Some(Seq::<char>::empty())),
        settings[i] == Some(name + rest),
        (name + rest).len() > 0,
        !name.contains('.'),
        rest.len() > 0 ==> rest[0] == '.',
    ensures
        locale_of(settings) == (if name.len() > 0 { name } else { seq!['C'] }),
        locale_of(Seq::empty()) == seq!['C'],
    decreases i,
{
    reveal_strlit("C");
    assert("C"@ =~= seq!['C']);
    if i > 0 {
        let more = settings.skip(1);
        assert forall|j: int| 0 <= j < i - 1 implies (#[trigger] more[j] is None || more[j] == Some(
            Seq::<char>::empty(),
        )) by {
            assert(more[j] == settings[j + 1]);
        }
        assert(more[i - 1] == settings[i]);
        the_first_locale_counts(more, name, rest, i - 1);
        assert(settings[0] is None || settings[0] == Some(Seq::<char>::empty()));
    } else {
        let v = name + rest;
        let n = name.len() as int;
        assert forall|k: int| 0 <= k < n implies v[k] != '.' by {
            assert(v[k] == name[k]);
            assert(name.contains(name[k]));
        }
        text::the_first_is_found(v, '.', 0, n);
        assert(v.take(n) =~= name);
    }
}

/// What is displayed is the composed text, with the caret in it: where the input method put it, or
/// at the end where it put it beyond.
pub proof fn compositions_are_displayed(p: Preedit, chars: Seq<char>, caret: usize)
    requires
        displayed(p, chars, caret),
        chars.len() <= usize::MAX,
    ensures
        p.text@ == chars,
        p.caret <= chars.len(),
        caret <= chars.len() ==> p.caret == caret,
        caret > chars.len() ==> p.caret == chars.len(),
        p.sel is None,
{
}

/// A composition that was never begun is empty, with its caret at the front.
pub proof fn compositions_begin_empty(m: Map<u16, Composition>, ic: u16, c: Composition, other: u16)
    requires
        other != ic,
    ensures
        !m.dom().contains(ic) ==> composed(m, ic).len() == 0 && caret_in(m, ic) == 0,
        composed(m.insert(ic, c), ic) == c.chars@ && caret_in(m.insert(ic, c), ic) == c.caret,
        composed(m.insert(ic, c), other) == composed(m, other) && caret_in(m.insert(ic, c), other)
            == caret_in(m, other),
        composed(m.remove(ic), ic).len() == 0,
{
}

} // verus!
