//! Global hot keys: the slots behind the registrations, and what a run-time change asks of
//! the window system. `G` is what the system hands out for a registration.

use crate::event::{Hotkey, HotkeyCtx, HotkeyOp, WindowOp};
use vstd::prelude::*;

verus! {

/// A combination and the callback that runs when it is pressed.
pub struct HotkeyBinding<F> {
    pub hotkey: Hotkey,
    pub callback: F,
}

/// One hot key. The callback stays even while the combination could not be registered: a
/// later rebind to a free combination brings it back.
pub struct Slot<F, G> {
    pub hotkey: Hotkey,
    pub callback: F,
    pub enabled: bool,
    /// The registration, where there is one.
    pub held: Option<G>,
}

/// A slot without its callback.
pub struct SlotView<G> {
    pub hotkey: Hotkey,
    pub enabled: bool,
    pub held: Option<G>,
}

/// Why a registration is asked for.
#[derive(Clone, Copy, Debug, PartialEq, Eq, Structural)]
pub enum Phase {
    /// The slot's own combination, at start-up or when it is enabled again.
    Plain,
    /// A new combination; the slot keeps its old one until this succeeds.
    Rebind,
    /// The old combination again, after a rebind failed.
    Restore,
}

/// A registration to attempt. The host reports the outcome to [`HotkeySlots::complete`].
#[derive(Clone, Copy, Debug, PartialEq, Eq, Structural)]
pub struct Acquire {
    pub id: usize,
    pub hotkey: Hotkey,
    pub phase: Phase,
}

/// What the host does next: give a registration back, then attempt one.
pub struct Step<G> {
    pub release: Option<G>,
    pub acquire: Option<Acquire>,
}

/// The registered hot keys. A slot's index is its id and never changes, so an event cannot
/// reach another slot's callback.
pub struct HotkeySlots<F, G> {
    pub slots: Vec<Slot<F, G>>,
}

/// The callback can be run on a context without an intent.
pub open spec fn runnable<F: FnMut(&mut HotkeyCtx)>(f: F) -> bool {
    forall|c: &mut HotkeyCtx| c.op is None ==> #[trigger] call_requires(f, (c,))
}

/// The slots and the step after a run-time change.
pub open spec fn applied<G>(s: Seq<SlotView<G>>, id: int, op: HotkeyOp) -> (
    Seq<SlotView<G>>,
    Step<G>,
) {
    if !(0 <= id < s.len()) {
        (s, Step { release: None, acquire: None })
    } else {
        let slot = s[id];
        match op {
            HotkeyOp::Rebind(new) => if slot.enabled {
                (
                    s.update(id, SlotView { held: None, ..slot }),
                    Step {
                        release: slot.held,
                        acquire: Some(
                            Acquire { id: id as usize, hotkey: new, phase: Phase::Rebind },
                        ),
                    },
                )
            } else {
                (
                    s.update(id, SlotView { hotkey: new, held: None, ..slot }),
                    Step { release: slot.held, acquire: None },
                )
            },
            HotkeyOp::SetEnabled(false) => (
                s.update(id, SlotView { enabled: false, held: None, ..slot }),
                Step { release: slot.held, acquire: None },
            ),
            HotkeyOp::SetEnabled(true) => (
                s.update(id, SlotView { enabled: true, ..slot }),
                Step {
                    release: None,
                    acquire: if slot.held is None {
                        Some(
                            Acquire {
                                id: id as usize,
                                hotkey: slot.hotkey,
                                phase: Phase::Plain,
                            },
                        )
                    } else {
                        None
                    },
                },
            ),
        }
    }
}

/// The slots and the next attempt after an attempt's outcome.
pub open spec fn completed<G>(s: Seq<SlotView<G>>, req: Acquire, got: Option<G>) -> (
    Seq<SlotView<G>>,
    Option<Acquire>,
) {
    let id = req.id as int;
    let slot = s[id];
    if req.phase != Phase::Rebind {
        (s.update(id, SlotView { held: got, ..slot }), None)
    } else if got is Some {
        (s.update(id, SlotView { hotkey: req.hotkey, held: got, ..slot }), None)
    } else {
        (s, Some(Acquire { id: req.id, hotkey: slot.hotkey, phase: Phase::Restore }))
    }
}

/// The slots with every registration given back.
pub open spec fn released<G>(s: Seq<SlotView<G>>) -> Seq<SlotView<G>> {
    Seq::new(s.len(), |i: int| SlotView { held: None::<G>, ..s[i] })
}

/// The steps that give every registration back and attempt those of the enabled slots anew.
pub open spec fn regrab_steps<G>(s: Seq<SlotView<G>>) -> Seq<Step<G>> {
    Seq::new(
        s.len(),
        |i: int|
            Step {
                release: s[i].held,
                acquire: if s[i].enabled {
                    Some(
                        Acquire { id: i as usize, hotkey: s[i].hotkey, phase: Phase::Plain },
                    )
                } else {
                    None
                },
            },
    )
}

/// Only enabled slots hold a registration.
pub open spec fn held_only_if_enabled<G>(s: Seq<SlotView<G>>) -> bool {
    forall|i: int| 0 <= i < s.len() ==> ((#[trigger] s[i]).held is Some ==> s[i].enabled)
}

impl<F, G> HotkeySlots<F, G> {
    /// The slots without their callbacks.
    pub open spec fn model(self) -> Seq<SlotView<G>> {
        Seq::new(
            self.slots@.len(),
            |i: int|
                SlotView {
                    hotkey: self.slots@[i].hotkey,
                    enabled: self.slots@[i].enabled,
                    held: self.slots@[i].held,
                },
        )
    }

    /// The callbacks, slot by slot.
    pub open spec fn callbacks(self) -> Seq<F> {
        Seq::new(self.slots@.len(), |i: int| self.slots@[i].callback)
    }
}

impl<F, G: Copy> HotkeySlots<F, G> {
    /// One enabled slot per binding, in order, with no registration yet, and the attempts
    /// to make. One that fails does not affect the others: a combination taken by another
    /// program is ordinary.
    pub fn install(bindings: Vec<HotkeyBinding<F>>) -> (r: (HotkeySlots<F, G>, Vec<Acquire>))
        ensures
            r.0.model() == Seq::new(
                bindings@.len(),
                |i: int|
                    SlotView { hotkey: bindings@[i].hotkey, enabled: true, held: None::<G> },
            ),
            r.0.slots@.len() == bindings@.len(),
            r.0.callbacks() == Seq::new(bindings@.len(), |i: int| bindings@[i].callback),
            r.1@ == Seq::new(
                bindings@.len(),
                |i: int|
                    Acquire {
                        id: i as usize,
                        hotkey: bindings@[i].hotkey,
                        phase: Phase::Plain,
                    },
            ),
    {
        let mut slots: Vec<Slot<F, G>> = Vec::new();
        let mut plan: Vec<Acquire> = Vec::new();
        let ghost all = bindings@;
        for b in it: bindings.into_iter()
            invariant
                it.seq() == all,
                slots@.len() == it.index(),
                plan@.len() == it.index(),
                forall|j: int|
                    0 <= j < it.index() ==> (#[trigger] slots@[j]).hotkey == all[j].hotkey
                        && slots@[j].callback == all[j].callback && slots@[j].enabled
                        && slots@[j].held is None,
                forall|j: int|
                    0 <= j < it.index() ==> #[trigger] plan@[j] == (Acquire {
                        id: j as usize,
                        hotkey: all[j].hotkey,
                        phase: Phase::Plain,
                    }),
        {
            let id: usize = plan.len();
            plan.push(Acquire { id, hotkey: b.hotkey, phase: Phase::Plain });
            slots.push(Slot { hotkey: b.hotkey, callback: b.callback, enabled: true, held: None });
        }
        (HotkeySlots { slots }, plan)
    }

    /// Rebinds, enables or disables a slot. A disabled slot only remembers its new
    /// combination; an enabled one first gives its registration back and then tries the new
    /// combination.
    pub fn apply(&mut self, id: usize, op: HotkeyOp) -> (r: Step<G>)
        ensures
            (final(self).model(), r) == applied(old(self).model(), id as int, op),
            final(self).callbacks() == old(self).callbacks(),
    {
        if id >= self.slots.len() {
            return Step { release: None, acquire: None };
        }
        match op {
            HotkeyOp::Rebind(new) => {
                let release = self.slots[id].held;
                self.slots[id].held = None;
                if !self.slots[id].enabled {
                    self.slots[id].hotkey = new;
                    return Step { release, acquire: None };
                }
                Step { release, acquire: Some(Acquire { id, hotkey: new, phase: Phase::Rebind }) }
            },
            HotkeyOp::SetEnabled(on) => {
                self.slots[id].enabled = on;
                if !on {
                    let release = self.slots[id].held;
                    self.slots[id].held = None;
                    return Step { release, acquire: None };
                }
                if self.slots[id].held.is_none() {
                    let hotkey = self.slots[id].hotkey;
                    Step {
                        release: None,
                        acquire: Some(Acquire { id, hotkey, phase: Phase::Plain }),
                    }
                } else {
                    Step { release: None, acquire: None }
                }
            },
        }
    }

    /// Records an attempt's outcome. A failed rebind asks for the old combination again, so
    /// that it does not cost a hot key that worked.
    pub fn complete(&mut self, req: Acquire, got: Option<G>) -> (r: Option<Acquire>)
        requires
            req.id < old(self).slots@.len(),
        ensures
            (final(self).model(), r) == completed(old(self).model(), req, got),
            final(self).callbacks() == old(self).callbacks(),
    {
        if req.phase != Phase::Rebind {
            self.slots[req.id].held = got;
            return None;
        }
        if got.is_some() {
            self.slots[req.id].hotkey = req.hotkey;
            self.slots[req.id].held = got;
            return None;
        }
        let hotkey = self.slots[req.id].hotkey;
        Some(Acquire { id: req.id, hotkey, phase: Phase::Restore })
    }

    /// The keyboard mapping changed: every slot gives its registration back, and the enabled
    /// ones are attempted anew. The host runs the steps in order.
    pub fn regrab_all(&mut self) -> (r: Vec<Step<G>>)
        ensures
            r@ == regrab_steps(old(self).model()),
            final(self).model() == released(old(self).model()),
            final(self).callbacks() == old(self).callbacks(),
    {
        let ghost before = self.model();
        let ghost calls = self.callbacks();
        let n: usize = self.slots.len();
        let mut plan: Vec<Step<G>> = Vec::new();
        let mut id: usize = 0;
        while id < n
            invariant
                id <= n,
                n == before.len(),
                n == self.slots@.len(),
                plan@.len() == id,
                self.callbacks() == calls,
                forall|j: int| 0 <= j < id ==> #[trigger] self.model()[j] == (SlotView { held: None::<G>, ..before[j] }),
                forall|j: int| id <= j < n ==> #[trigger] self.model()[j] == before[j],
                forall|j: int|
                    0 <= j < id ==> #[trigger] plan@[j] == (Step {
                        release: before[j].held,
                        acquire: if before[j].enabled {
                            Some(
                                Acquire {
                                    id: j as usize,
                                    hotkey: before[j].hotkey,
                                    phase: Phase::Plain,
                                },
                            )
                        } else {
                            None
                        },
                    }),
            decreases n - id,
        {
            assert(self.model()[id as int] == before[id as int]);
            let ghost m = self.model();
            let release = self.slots[id].held;
            let hotkey = self.slots[id].hotkey;
            let enabled = self.slots[id].enabled;
            self.slots[id].held = None;
            proof {
                assert(self.model() =~= m.update(id as int, SlotView { held: None::<G>, ..m[id as int] }));
                assert(self.callbacks() =~= calls);
            }
            let acquire = if enabled {
                Some(Acquire { id, hotkey, phase: Phase::Plain })
            } else {
                None
            };
            plan.push(Step { release, acquire });
            id += 1;
        }
        assert(self.model() =~= released(before));
        assert(plan@ =~= regrab_steps(before));
        plan
    }
}

impl<F: FnMut(&mut HotkeyCtx), G> HotkeySlots<F, G> {
    /// Runs a slot's callback and hands out the window intent that it declared; an unknown
    /// id runs nothing.
    pub fn fire(&mut self, id: usize) -> (r: Option<WindowOp>)
        requires
            id < old(self).slots@.len() ==> runnable(old(self).slots@[id as int].callback),
        ensures
            final(self).slots@.len() == old(self).slots@.len(),
            final(self).model() == old(self).model(),
            final(self).callbacks() == old(self).callbacks(),
            id >= old(self).slots@.len() ==> r is None && *final(self) == *old(self),
            id < old(self).slots@.len() ==> exists|c: &mut HotkeyCtx| #[trigger]
                call_ensures(old(self).slots@[id as int].callback, (c,), ()) && c.op is None
                    && r == final(c).op,
    {
        if id >= self.slots.len() {
            return None;
        }
        let mut ctx = HotkeyCtx::new();
        let callback = &mut self.slots[id].callback;
        callback(&mut ctx);
        ctx.take_op()
    }
}

/// A failed rebind leaves the hot key that was there: the registration is given back, the new
/// combination is refused, and the old one is asked for again. When the system grants it, the
/// slot differs from before at most in its registration, and no other slot differs.
pub proof fn failed_rebind_keeps_the_hotkey<G>(
    s: Seq<SlotView<G>>,
    id: int,
    new: Hotkey,
    regained: G,
)
    requires
        0 <= id < s.len() <= usize::MAX,
        s[id].enabled,
    ensures
        ({
            let (s1, step) = applied(s, id, HotkeyOp::Rebind(new));
            let (s2, again) = completed(s1, step.acquire.unwrap(), None);
            let (s3, end) = completed(s2, again.unwrap(), Some(regained));
            &&& step.release == s[id].held
            &&& step.acquire == Some(
                Acquire { id: id as usize, hotkey: new, phase: Phase::Rebind },
            )
            &&& again == Some(
                Acquire { id: id as usize, hotkey: s[id].hotkey, phase: Phase::Restore },
            )
            &&& end is None
            &&& s3 == s.update(id, SlotView { held: Some(regained), ..s[id] })
        }),
{
}

/// A granted rebind replaces the combination and the registration of that slot alone.
pub proof fn granted_rebind_takes_effect<G>(s: Seq<SlotView<G>>, id: int, new: Hotkey, got: G)
    requires
        0 <= id < s.len() <= usize::MAX,
        s[id].enabled,
    ensures
        ({
            let (s1, step) = applied(s, id, HotkeyOp::Rebind(new));
            let (s2, end) = completed(s1, step.acquire.unwrap(), Some(got));
            &&& end is None
            &&& s2 == s.update(id, SlotView { hotkey: new, held: Some(got), ..s[id] })
        }),
{
}

/// A disabled slot holds no registration, a rebind while disabled only changes what will be
/// registered, and enabling asks for exactly that.
pub proof fn rebind_while_disabled_waits<G>(s: Seq<SlotView<G>>, id: int, new: Hotkey)
    requires
        0 <= id < s.len() <= usize::MAX,
    ensures
        ({
            let (s1, off) = applied(s, id, HotkeyOp::SetEnabled(false));
            let (s2, step) = applied(s1, id, HotkeyOp::Rebind(new));
            let (s3, on) = applied(s2, id, HotkeyOp::SetEnabled(true));
            &&& off.release == s[id].held && off.acquire is None
            &&& s1[id].held is None
            &&& step.release is None && step.acquire is None
            &&& on.release is None
            &&& on.acquire == Some(
                Acquire { id: id as usize, hotkey: new, phase: Phase::Plain },
            )
            &&& s3 == s.update(id, SlotView { hotkey: new, enabled: true, held: None })
        }),
{
}

/// Every change, and every outcome of an attempt for an enabled slot, keeps the rule that only
/// enabled slots hold a registration.
pub proof fn changes_keep_held_only_if_enabled<G>(
    s: Seq<SlotView<G>>,
    id: int,
    op: HotkeyOp,
    req: Acquire,
    got: Option<G>,
)
    requires
        held_only_if_enabled(s),
        req.id < s.len(),
        s[req.id as int].enabled,
    ensures
        held_only_if_enabled(applied(s, id, op).0),
        held_only_if_enabled(completed(s, req, got).0),
{
}

/// A change keeps to its slot: every other slot is as it was, and so is every slot where there is
/// none with that number.
pub proof fn changes_keep_to_their_slot<G>(s: Seq<SlotView<G>>, id: int, op: HotkeyOp, i: int)
    requires
        0 <= i < s.len(),
    ensures
        applied(s, id, op).0.len() == s.len(),
        i != id ==> applied(s, id, op).0[i] == s[i],
        !(0 <= id < s.len()) ==> applied(s, id, op).0 == s && applied(s, id, op).1.release is None
            && applied(s, id, op).1.acquire is None,
{
}

/// No registration is lost: what a slot held is still held, or is to be given back; and nothing is
/// given back that was not held. What is asked for is for that slot, which then holds nothing and
/// is enabled.
pub proof fn registrations_are_not_lost<G>(s: Seq<SlotView<G>>, id: int, op: HotkeyOp)
    requires
        0 <= id < s.len() <= usize::MAX,
    ensures
        ({
            let (after, step) = applied(s, id, op);
            &&& (after[id].held == s[id].held && step.release is None) || (after[id].held is None
                && step.release == s[id].held)
            &&& step.acquire matches Some(a) ==> a.id == id && after[id].held is None
                && after[id].enabled
            &&& op matches HotkeyOp::SetEnabled(on) ==> after[id].enabled == on && after[id].hotkey
                == s[id].hotkey
            &&& op matches HotkeyOp::SetEnabled(on) ==> (!on ==> after[id].held is None
                && step.acquire is None)
            &&& op matches HotkeyOp::Rebind(new) ==> after[id].enabled == s[id].enabled && (
            step.acquire matches Some(a) ==> a.hotkey == new)
            &&& op is Rebind && !s[id].enabled ==> step.acquire is None
            &&& after[id].enabled && after[id].held is None ==> step.acquire is Some
        }),
{
}

/// An outcome keeps to its slot and is what the slot holds then, unless a new combination was
/// refused: the old one is then asked for, and the slot stays as it was.
pub proof fn outcomes_keep_to_their_slot<G>(
    s: Seq<SlotView<G>>,
    req: Acquire,
    got: Option<G>,
    i: int,
)
    requires
        req.id < s.len(),
        0 <= i < s.len(),
    ensures
        ({
            let (after, next) = completed(s, req, got);
            let id = req.id as int;
            &&& after.len() == s.len()
            &&& i != id ==> after[i] == s[i]
            &&& after[id].enabled == s[id].enabled
            &&& got is Some ==> after[id].held == got && next is None
            &&& req.phase is Rebind && got is Some ==> after[id].hotkey == req.hotkey
            &&& !(req.phase is Rebind && got is Some) ==> after[id].hotkey == s[id].hotkey
            &&& req.phase is Rebind && got is None ==> after == s && next == Some(
                Acquire { id: req.id, hotkey: s[id].hotkey, phase: Phase::Restore },
            )
            &&& !(req.phase is Rebind) ==> next is None && after[id].held == got
        }),
{
}

/// When all are taken anew, each registration is given back, each enabled slot asks for its own
/// combination, and nothing but the registrations changes.
pub proof fn regrabbing_takes_all_anew<G>(s: Seq<SlotView<G>>, i: int)
    requires
        0 <= i < s.len() <= usize::MAX,
    ensures
        released(s).len() == s.len() && regrab_steps(s).len() == s.len(),
        released(s)[i].held is None,
        released(s)[i].hotkey == s[i].hotkey && released(s)[i].enabled == s[i].enabled,
        regrab_steps(s)[i].release == s[i].held,
        s[i].enabled ==> regrab_steps(s)[i].acquire == Some(
            Acquire { id: i as usize, hotkey: s[i].hotkey, phase: Phase::Plain },
        ),
        !s[i].enabled ==> regrab_steps(s)[i].acquire is None,
{
}

} // verus!
