//! The open windows of the application. The last one to close ends it.

use crate::text;
use vstd::prelude::*;

verus! {

/// An open window and its key.
pub struct LiveWindow {
    pub id: isize,
    pub single: Option<String>,
}

/// The open windows, oldest first.
pub struct LiveWindows {
    pub wins: Vec<LiveWindow>,
}

/// The handles of the windows, in order.
pub open spec fn handles(s: Seq<LiveWindow>) -> Seq<isize> {
    Seq::new(s.len(), |i: int| s[i].id)
}

/// The first window with this key.
pub open spec fn with_key(s: Seq<LiveWindow>, key: Seq<char>) -> Option<isize>
    decreases s.len(),
{
    if s.len() == 0 {
        None
    } else if text::opt_text(s[0].single) == Some(key) {
        Some(s[0].id)
    } else {
        with_key(s.skip(1), key)
    }
}

/// The windows without one.
pub open spec fn without(s: Seq<LiveWindow>, id: isize) -> Seq<LiveWindow> {
    s.filter(|w: LiveWindow| w.id != id)
}

impl LiveWindows {
    /// No window is entered twice.
    pub open spec fn wf(self) -> bool {
        handles(self.wins@).no_duplicates()
    }

    pub open spec fn has(self, id: isize) -> bool {
        handles(self.wins@).contains(id)
    }

    pub fn new() -> (r: LiveWindows)
        ensures
            r.wf(),
            r.wins@ == Seq::<LiveWindow>::empty(),
    {
        LiveWindows { wins: Vec::new() }
    }

    pub fn contains(&self, id: isize) -> (r: bool)
        ensures
            r == self.has(id),
    {
        let mut i: usize = 0;
        while i < self.wins.len()
            invariant
                i <= self.wins@.len(),
                forall|k: int| 0 <= k < i ==> (#[trigger] self.wins@[k]).id != id,
            decreases self.wins@.len() - i,
        {
            if self.wins[i].id == id {
                assert(handles(self.wins@)[i as int] == id);
                return true;
            }
            i += 1;
        }
        proof {
            if self.has(id) {
                let k = choose|k: int|
                    0 <= k < handles(self.wins@).len() && handles(self.wins@)[k] == id;
                assert(self.wins@[k].id == id);
            }
        }
        false
    }

    /// Enters a window.
    pub fn add(&mut self, id: isize, single: Option<String>)
        requires
            old(self).wf(),
            !old(self).has(id),
        ensures
            final(self).wf(),
            final(self).wins@ == old(self).wins@.push(LiveWindow { id, single }),
    {
        let ghost before = handles(self.wins@);
        self.wins.push(LiveWindow { id, single });
        proof {
            assert(handles(self.wins@) =~= before.push(id));
            assert(before.push(id).no_duplicates()) by {
                assert forall|i: int, j: int|
                    0 <= i < before.push(id).len() && 0 <= j < before.push(id).len() && i
                        != j implies before.push(id)[i] != before.push(id)[j] by {
                    if i == before.len() {
                        assert(before.contains(before[j]));
                    } else if j == before.len() {
                        assert(before.contains(before[i]));
                    }
                }
            }
        }
    }

    /// Removes a window, and says whether the last one went. Removing a window that is not
    /// there changes nothing and never ends the application.
    pub fn remove(&mut self, id: isize) -> (r: bool)
        requires
            old(self).wf(),
        ensures
            final(self).wf(),
            final(self).wins@ == without(old(self).wins@, id),
            !final(self).has(id),
            r == (old(self).has(id) && final(self).wins@.len() == 0),
    {
        let ghost all = self.wins@;
        let ghost keep = |w: LiveWindow| w.id != id;
        let mut found = false;
        let mut i: usize = 0;
        let ghost mut seen: int = 0;
        reveal(Seq::filter);
        assert(self.wins@ =~= all.take(0).filter(keep) + all.skip(0));
        while i < self.wins.len()
            invariant
                0 <= seen <= all.len(),
                i == all.take(seen).filter(keep).len(),
                self.wins@ == all.take(seen).filter(keep) + all.skip(seen),
                keep == (|w: LiveWindow| w.id != id),
                found == exists|k: int| 0 <= k < seen && (#[trigger] all[k]).id == id,
            decreases all.len() - seen,
        {
            proof {
                assert(self.wins@[i as int] == all.skip(seen)[0]);
                assert(all.take(seen + 1).drop_last() =~= all.take(seen));
                reveal(Seq::filter);
            }
            let ghost kept = all.take(seen).filter(keep);
            if self.wins[i].id == id {
                self.wins.remove(i);
                assert(self.wins@ =~= kept + all.skip(seen + 1));
                assert(all[seen].id == id);
                found = true;
            } else {
                assert(self.wins@ =~= kept.push(all[seen]) + all.skip(seen + 1));
                i += 1;
            }
            proof {
                seen = seen + 1;
            }
        }
        assert(all.take(seen) =~= all);
        assert(self.wins@ =~= all.filter(keep));
        proof {
            removal_keeps_distinct(all, id);
            assert(found == handles(all).contains(id)) by {
                if found {
                    let k = choose|k: int| 0 <= k < all.len() && (#[trigger] all[k]).id == id;
                    assert(handles(all)[k] == id);
                }
                if handles(all).contains(id) {
                    let k = choose|k: int| 0 <= k < handles(all).len() && handles(all)[k] == id;
                    assert(all[k].id == id);
                }
            }
        }
        found && self.wins.len() == 0
    }

    /// The handles of the windows.
    pub fn ids(&self) -> (r: Vec<isize>)
        ensures
            r@ == handles(self.wins@),
    {
        let mut out: Vec<isize> = Vec::new();
        let mut i: usize = 0;
        while i < self.wins.len()
            invariant
                i <= self.wins@.len(),
                out@ == handles(self.wins@).take(i as int),
            decreases self.wins@.len() - i,
        {
            out.push(self.wins[i].id);
            assert(out@ =~= handles(self.wins@).take(i + 1));
            i += 1;
        }
        assert(handles(self.wins@).take(i as int) =~= handles(self.wins@));
        out
    }

    /// The window with this key.
    pub fn find_single(&self, key: &str) -> (r: Option<isize>)
        ensures
            r == with_key(self.wins@, key@),
    {
        let mut i: usize = 0;
        assert(self.wins@.skip(0) =~= self.wins@);
        while i < self.wins.len()
            invariant
                i <= self.wins@.len(),
                with_key(self.wins@.skip(i as int), key@) == with_key(self.wins@, key@),
            decreases self.wins@.len() - i,
        {
            assert(self.wins@.skip(i as int).skip(1) =~= self.wins@.skip(i + 1));
            if let Some(k) = &self.wins[i].single {
                if text::same_text(k.as_str(), key) {
                    return Some(self.wins[i].id);
                }
            }
            i += 1;
        }
        None
    }
}

/// What is left after a removal: no window twice, the removed one not at all, each of the others
/// as it was.
pub proof fn removal_keeps_distinct(s: Seq<LiveWindow>, id: isize)
    requires
        handles(s).no_duplicates(),
    ensures
        handles(without(s, id)).no_duplicates(),
        !handles(without(s, id)).contains(id),
        forall|i: int|
            0 <= i < without(s, id).len() ==> s.contains(#[trigger] without(s, id)[i]),
        forall|k: int|
            0 <= k < s.len() && (#[trigger] s[k]).id != id ==> without(s, id).contains(s[k]),
    decreases s.len(),
{
    reveal(Seq::filter);
    if s.len() > 0 {
        let before = s.drop_last();
        assert(handles(before).no_duplicates()) by {
            assert forall|i: int, j: int|
                0 <= i < handles(before).len() && 0 <= j < handles(before).len() && i
                    != j implies handles(before)[i] != handles(before)[j] by {
                assert(handles(s)[i] != handles(s)[j]);
            }
        }
        removal_keeps_distinct(before, id);
        let a = without(before, id);
        let b = without(s, id);
        if s.last().id != id {
            assert(b =~= a.push(s.last()));
            assert forall|i: int, j: int|
                0 <= i < handles(b).len() && 0 <= j < handles(b).len() && i != j implies handles(
                b,
            )[i] != handles(b)[j] by {
                if i == a.len() || j == a.len() {
                    let m = if i == a.len() { j } else { i };
                    assert(before.contains(a[m]));
                    let k = choose|k: int| 0 <= k < before.len() && before[k] == a[m];
                    assert(handles(s)[k] != handles(s)[s.len() - 1]);
                } else {
                    assert(handles(a)[i] != handles(a)[j]);
                }
            }
            assert(!handles(b).contains(id)) by {
                if handles(b).contains(id) {
                    let k = choose|k: int| 0 <= k < handles(b).len() && handles(b)[k] == id;
                    if k < a.len() {
                        assert(handles(a)[k] == id);
                    }
                }
            }
        } else {
            assert(b =~= a);
        }
        assert forall|i: int| 0 <= i < b.len() implies s.contains(#[trigger] b[i]) by {
            if i < a.len() {
                assert(before.contains(a[i]));
                let k = choose|k: int| 0 <= k < before.len() && before[k] == a[i];
                assert(s[k] == b[i]);
            } else {
                assert(s[s.len() - 1] == b[i]);
            }
        }
        assert forall|k: int| 0 <= k < s.len() && (#[trigger] s[k]).id != id implies b.contains(
            s[k],
        ) by {
            if k < before.len() {
                assert(before[k].id != id);
                assert(a.contains(before[k]));
                let m = choose|m: int| 0 <= m < a.len() && a[m] == before[k];
                assert(b[m] == s[k]);
            } else {
                assert(b[a.len() as int] == s[k]);
            }
        }
    }
}

/// A key finds an open window that has it, and nothing where no window has it; a window without
/// a key is never found.
pub proof fn a_key_finds_its_window(s: Seq<LiveWindow>, key: Seq<char>)
    ensures
        match with_key(s, key) {
            Some(id) => exists|k: int|
                0 <= k < s.len() && (#[trigger] s[k]).id == id && text::opt_text(s[k].single)
                    == Some(key),
            None => forall|k: int|
                0 <= k < s.len() ==> text::opt_text((#[trigger] s[k]).single) != Some(key),
        },
    decreases s.len(),
{
    if s.len() > 0 {
        let rest = s.skip(1);
        a_key_finds_its_window(rest, key);
        if text::opt_text(s[0].single) == Some(key) {
            assert(s[0].id == with_key(s, key).unwrap());
        } else {
            match with_key(rest, key) {
                Some(id) => {
                    let k = choose|k: int|
                        0 <= k < rest.len() && (#[trigger] rest[k]).id == id && text::opt_text(
                            rest[k].single,
                        ) == Some(key);
                    assert(s[k + 1].id == id && text::opt_text(s[k + 1].single) == Some(key));
                },
                None => {
                    assert forall|k: int| 0 <= k < s.len() implies text::opt_text(
                        (#[trigger] s[k]).single,
                    ) != Some(key) by {
                        if k > 0 {
                            assert(rest[k - 1] == s[k]);
                        }
                    }
                },
            }
        }
    }
}

/// Closing a window frees its key: where it was the only window with that key, the key finds
/// nothing afterwards.
pub proof fn closing_frees_the_key(s: Seq<LiveWindow>, id: isize, key: Seq<char>)
    requires
        handles(s).no_duplicates(),
        forall|k: int|
            0 <= k < s.len() && text::opt_text((#[trigger] s[k]).single) == Some(key) ==> s[k].id
                == id,
    ensures
        with_key(without(s, id), key) is None,
{
    removal_keeps_distinct(s, id);
    let left = without(s, id);
    a_key_finds_its_window(left, key);
    if let Some(found) = with_key(left, key) {
        let k = choose|k: int|
            0 <= k < left.len() && (#[trigger] left[k]).id == found && text::opt_text(left[k].single)
                == Some(key);
        assert(s.contains(left[k]));
        let j = choose|j: int| 0 <= j < s.len() && s[j] == left[k];
        assert(s[j].id == id);
        assert(handles(left)[k] == id);
    }
}

/// A key finds the oldest window that has it.
pub proof fn a_key_finds_the_oldest(s: Seq<LiveWindow>, key: Seq<char>, i: int)
    requires
        0 <= i < s.len(),
        s[i].single matches Some(k) && k@ == key,
        forall|j: int| 0 <= j < i ==> !((#[trigger] s[j]).single matches Some(k) && k@ == key),
    ensures
        with_key(s, key) == Some(s[i].id),
    decreases s.len(),
{
    if i > 0 {
        let rest = s.skip(1);
        assert(!(s[0].single matches Some(k) && k@ == key));
        assert forall|j: int| 0 <= j < i - 1 implies !((#[trigger] rest[j]).single matches Some(k)
            && k@ == key) by {
            assert(rest[j] == s[j + 1]);
        }
        a_key_finds_the_oldest(rest, key, i - 1);
    }
}

/// The windows keep their order: one that is entered comes last, removing it again gives back what
/// was there, and removing one that is not there changes nothing.
pub proof fn windows_keep_their_order(s: Seq<LiveWindow>, w: LiveWindow)
    requires
        forall|i: int| 0 <= i < s.len() ==> (#[trigger] s[i]).id != w.id,
    ensures
        handles(s.push(w)) == handles(s).push(w.id),
        without(s.push(w), w.id) == s,
        without(s, w.id) == s,
    decreases s.len(),
{
    reveal(Seq::filter);
    assert(handles(s.push(w)) =~= handles(s).push(w.id));
    assert(s.push(w).drop_last() =~= s);
    if s.len() > 0 {
        let init = s.drop_last();
        assert forall|i: int| 0 <= i < init.len() implies (#[trigger] init[i]).id != w.id by {
            assert(init[i] == s[i]);
        }
        windows_keep_their_order(init, w);
        assert(s[s.len() - 1].id != w.id);
        assert(without(s, w.id) =~= without(init, w.id).push(s.last()));
        assert(init.push(s.last()) =~= s);
    } else {
        assert(without(s, w.id) =~= s);
    }
}

/// Removing a window leaves the order of the others as it was.
pub proof fn removal_keeps_the_order(a: Seq<LiveWindow>, w: LiveWindow, b: Seq<LiveWindow>)
    requires
        forall|i: int| 0 <= i < a.len() ==> (#[trigger] a[i]).id != w.id,
        forall|i: int| 0 <= i < b.len() ==> (#[trigger] b[i]).id != w.id,
    ensures
        without(a.push(w) + b, w.id) == a + b,
    decreases b.len(),
{
    reveal(Seq::filter);
    let s = a.push(w) + b;
    if b.len() == 0 {
        assert(s =~= a.push(w));
        windows_keep_their_order(a, w);
        assert(a + b =~= a);
    } else {
        let init = b.drop_last();
        assert forall|i: int| 0 <= i < init.len() implies (#[trigger] init[i]).id != w.id by {
            assert(init[i] == b[i]);
        }
        removal_keeps_the_order(a, w, init);
        assert(s.drop_last() =~= a.push(w) + init);
        assert(s.last() == b[b.len() - 1]);
        assert((a + init).push(b.last()) =~= a + b);
    }
}

} // verus!
