//! The current values of signals, and text that is looked up only when it is shown.

use vstd::prelude::*;

verus! {

/// A boolean signal: a place in the table of current values.
#[derive(Clone, Copy, Debug, PartialEq, Eq, Structural)]
pub struct Signal {
    pub slot: usize,
}

/// The current values: boolean signals, and the texts in force (bound texts, and messages in
/// the language of the moment).
pub struct Signals {
    pub flags: Vec<bool>,
    pub texts: Vec<String>,
}

impl Signals {
    pub fn new() -> (r: Signals)
        ensures
            r.flags@ == Seq::<bool>::empty(),
            r.texts@ == Seq::<String>::empty(),
    {
        Signals { flags: Vec::new(), texts: Vec::new() }
    }

    /// A new boolean signal with its first value.
    pub fn signal(&mut self, value: bool) -> (r: Signal)
        ensures
            r.slot == old(self).flags@.len(),
            final(self).flags@ == old(self).flags@.push(value),
            final(self).texts == old(self).texts,
    {
        let slot: usize = self.flags.len();
        self.flags.push(value);
        Signal { slot }
    }

    pub fn get(&self, s: Signal) -> (r: bool)
        requires
            s.slot < self.flags@.len(),
        ensures
            r == self.flags@[s.slot as int],
    {
        self.flags[s.slot]
    }

    pub fn set(&mut self, s: Signal, value: bool)
        requires
            s.slot < old(self).flags@.len(),
        ensures
            final(self).flags@ == old(self).flags@.update(s.slot as int, value),
            final(self).texts == old(self).texts,
    {
        self.flags[s.slot] = value;
    }
}

/// A text that is fixed, or looked up each time it is shown.
pub enum TextContent {
    Plain(String),
    /// The text in force at this place of the table.
    Live(usize),
}

impl TextContent {
    /// A live text has its place in the table.
    pub open spec fn valid(self, now: Signals) -> bool {
        self matches TextContent::Live(i) ==> i < now.texts@.len()
    }

    /// The text at this moment.
    pub open spec fn shown(self, now: Signals) -> Seq<char> {
        match self {
            TextContent::Plain(s) => s@,
            TextContent::Live(i) => now.texts@[i as int]@,
        }
    }

    pub fn resolve(&self, now: &Signals) -> (r: String)
        requires
            self.valid(*now),
        ensures
            r@ == self.shown(*now),
    {
        match self {
            TextContent::Plain(s) => s.clone(),
            TextContent::Live(i) => now.texts[*i].clone(),
        }
    }
}

} // verus!
