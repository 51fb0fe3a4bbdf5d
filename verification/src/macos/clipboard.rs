//! The clipboard, which is not connected: reading gives nothing and writing does nothing.

use vstd::prelude::*;

verus! {

pub struct MacClipboard;

impl MacClipboard {
    pub fn get_text(&self) -> (r: Option<String>)
        ensures
            r is None,
    {
        None
    }

    pub fn set_text(&self, text: &str) {
    }
}

} // verus!
