//! The clipboard: owning the selection, and asking whoever owns it.

use crate::text;
use vstd::prelude::*;
use vstd::utf8::*;

verus! {

/// The predefined atoms of the protocol.
pub const ATOM_NONE: u32 = 0;

pub const ATOM_STRING: u32 = 31;

/// The atoms of the clipboard.
#[derive(Clone, Copy, Debug, PartialEq, Eq, Structural)]
pub struct ClipAtoms {
    pub clipboard: u32,
    pub utf8_string: u32,
    pub targets: u32,
    pub text: u32,
    pub incr: u32,
    pub transfer: u32,
}

/// Another program asks for the selection.
#[derive(Clone, Copy, Debug, PartialEq, Eq, Structural)]
pub struct SelectionRequest {
    pub requestor: u32,
    pub selection: u32,
    pub target: u32,
    pub property: u32,
    pub time: u32,
}

/// What is put on the requestor's window.
pub enum Content {
    /// The request cannot be met.
    Refused,
    /// The list of what can be asked for.
    Targets(Vec<u32>),
    /// The text, under this type.
    Text { kind: u32, bytes: Vec<u8> },
}

/// An answer to a request: the property to write, and what.
pub struct Answer {
    pub property: u32,
    pub content: Content,
}

/// What is put on the requestor's window, as values.
pub enum ContentView {
    Refused,
    Targets(Seq<u32>),
    Text { kind: u32, bytes: Seq<u8> },
}

impl View for Content {
    type V = ContentView;

    open spec fn view(&self) -> ContentView {
        match self {
            Content::Refused => ContentView::Refused,
            Content::Targets(t) => ContentView::Targets(t@),
            Content::Text { kind, bytes } => ContentView::Text { kind: *kind, bytes: bytes@ },
        }
    }
}

/// The clipboard of this program: the text that it offers, while it owns the selection.
pub struct X11Clipboard {
    owned: Option<String>,
}

/// The property that a request means; an old client leaves it out and means its target.
pub open spec fn property_meant(req: SelectionRequest) -> u32 {
    if req.property == ATOM_NONE { req.target } else { req.property }
}

/// A target that stands for the text.
pub open spec fn text_target(a: ClipAtoms, target: u32) -> bool {
    target == a.utf8_string || target == a.text || target == ATOM_STRING
}

impl ClipAtoms {
    /// The server gives every name an atom of its own.
    pub open spec fn distinct(self) -> bool {
        seq![
            ATOM_NONE,
            ATOM_STRING,
            self.clipboard,
            self.utf8_string,
            self.targets,
            self.text,
            self.incr,
            self.transfer,
        ].no_duplicates()
    }
}

/// What a request is answered with while `offer` is offered: the list of targets, or the text for
/// a target that stands for text; without an offer, and for any other target, a refusal.
pub open spec fn content_for(offer: Option<Seq<char>>, a: ClipAtoms, target: u32) -> ContentView {
    match offer {
        None => ContentView::Refused,
        Some(s) => if target == a.targets {
            ContentView::Targets(seq![a.targets, a.utf8_string, a.text, ATOM_STRING])
        } else if text_target(a, target) {
            ContentView::Text { kind: target, bytes: encode_utf8(s) }
        } else {
            ContentView::Refused
        },
    }
}

/// The text that was transferred; a transfer in pieces is not supported.
pub open spec fn transferred(a: ClipAtoms, kind: u32, bytes: Seq<u8>) -> Option<Seq<char>> {
    if kind == a.incr {
        None
    } else if valid_utf8(bytes) {
        Some(decode_utf8(bytes))
    } else {
        Some(text::lossy_text(bytes))
    }
}

impl X11Clipboard {
    /// The text that is offered.
    pub closed spec fn offered(self) -> Option<Seq<char>> {
        text::opt_text(self.owned)
    }

    pub fn new() -> (r: X11Clipboard)
        ensures
            r.offered() is None,
    {
        X11Clipboard { owned: None }
    }

    /// Offers a text; the host then takes the selection.
    pub fn set_text(&mut self, s: &str)
        ensures
            final(self).offered() == Some(s@),
    {
        self.owned = Some(s.to_owned());
    }

    /// The offered text; without one the owner of the selection has to be asked.
    pub fn get_text(&self) -> (r: Option<String>)
        ensures
            text::opt_text(r) == self.offered(),
    {
        match &self.owned {
            Some(s) => Some(s.clone()),
            None => None,
        }
    }

    /// Another program took the selection.
    pub fn selection_cleared(&mut self)
        ensures
            final(self).offered() is None,
    {
        self.owned = None;
    }

    /// Answers a request for the selection.
    pub fn answer(&self, a: ClipAtoms, req: SelectionRequest) -> (r: Answer)
        ensures
            r.property == property_meant(req),
            r.content@ == content_for(self.offered(), a, req.target),
    {
        let property: u32 = if req.property == ATOM_NONE { req.target } else { req.property };
        let content = match &self.owned {
            None => Content::Refused,
            Some(s) => {
                if req.target == a.targets {
                    Content::Targets(vec![a.targets, a.utf8_string, a.text, ATOM_STRING])
                } else if req.target == a.utf8_string || req.target == a.text || req.target
                    == ATOM_STRING {
                    Content::Text {
                        kind: req.target,
                        bytes: vstd::slice::slice_to_vec(s.as_str().as_bytes()),
                    }
                } else {
                    Content::Refused
                }
            },
        };
        assert(content@ == content_for(self.offered(), a, req.target)) by {
            if let Content::Targets(t) = content {
                assert(t@ =~= seq![a.targets, a.utf8_string, a.text, ATOM_STRING]);
            }
        }
        Answer { property, content }
    }
}

/// The property that the notification names: none where nothing was written.
pub fn notified_property(answer: &Answer, written: bool) -> (r: u32)
    ensures
        r == (if written && !(answer.content is Refused) { answer.property } else { ATOM_NONE }),
{
    match answer.content {
        Content::Refused => ATOM_NONE,
        _ => if written {
            answer.property
        } else {
            ATOM_NONE
        },
    }
}

/// What to ask the owner for: UTF-8 first, then the plain string, then nothing more.
pub fn next_target(a: ClipAtoms, refused: usize) -> (r: Option<u32>)
    ensures
        r == (if refused == 0 {
            Some(a.utf8_string)
        } else if refused == 1 {
            Some(ATOM_STRING)
        } else {
            None
        }),
{
    if refused == 0 {
        Some(a.utf8_string)
    } else if refused == 1 {
        Some(ATOM_STRING)
    } else {
        None
    }
}

/// What a notification means while an answer is awaited.
#[derive(Clone, Copy, Debug, PartialEq, Eq, Structural)]
pub enum FetchStep {
    /// It is for someone else.
    Wait,
    /// The owner refused.
    Refused,
    /// The text is on the window: read it.
    Read,
}

pub fn notified(window: u32, requestor: u32, property: u32) -> (r: FetchStep)
    ensures
        r == (if requestor != window {
            FetchStep::Wait
        } else if property == ATOM_NONE {
            FetchStep::Refused
        } else {
            FetchStep::Read
        }),
{
    if requestor != window {
        FetchStep::Wait
    } else if property == ATOM_NONE {
        FetchStep::Refused
    } else {
        FetchStep::Read
    }
}

/// Reads what was transferred.
pub fn received(a: ClipAtoms, kind: u32, bytes: &[u8]) -> (r: Option<String>)
    ensures
        text::opt_text(r) == transferred(a, kind, bytes@),
{
    if kind == a.incr {
        return None;
    }
    Some(text::from_utf8_lossy(bytes))
}

/// What is copied is what is pasted: a request for any kind of text is answered with bytes that
/// the receiving end reads as the text that was offered.
pub proof fn copied_text_is_pasted(s: Seq<char>, a: ClipAtoms, target: u32)
    requires
        a.distinct(),
        text_target(a, target),
    ensures
        content_for(Some(s), a, target) matches ContentView::Text { kind, bytes } && transferred(
            a,
            kind,
            bytes,
        ) == Some(s),
{
    let all = seq![
        ATOM_NONE,
        ATOM_STRING,
        a.clipboard,
        a.utf8_string,
        a.targets,
        a.text,
        a.incr,
        a.transfer,
    ];
    assert(all[1] != all[4] && all[3] != all[4] && all[5] != all[4]);
    assert(all[1] != all[6] && all[3] != all[6] && all[5] != all[6]);
    encode_utf8_valid_utf8(s);
    encode_utf8_decode_utf8(s);
}

/// Every target that is listed can be asked for and is answered; no other is, and without an
/// offer none is.
pub proof fn listed_targets_are_answered(s: Seq<char>, a: ClipAtoms, target: u32)
    requires
        a.distinct(),
    ensures
        content_for(None, a, target) is Refused,
        content_for(Some(s), a, a.targets) matches ContentView::Targets(list) && {
            &&& list.contains(target) <==> !(content_for(Some(s), a, target) is Refused)
            &&& list.contains(a.targets) && list.contains(a.utf8_string) && list.contains(a.text)
                && list.contains(31)
            &&& list.len() == 4
        },
        content_for(Some(s), a, target) is Targets <==> target == a.targets,
        content_for(Some(s), a, target) matches ContentView::Text { kind, bytes } ==> kind == target
            && bytes == encode_utf8(s),
{
    let list = seq![a.targets, a.utf8_string, a.text, ATOM_STRING];
    assert(list[0] == a.targets && list[1] == a.utf8_string && list[2] == a.text && list[3] == 31);
    if list.contains(target) {
        let k = choose|k: int| 0 <= k < list.len() && list[k] == target;
        assert(k == 0 || k == 1 || k == 2 || k == 3);
    }
}

/// The answer goes where the request says, or under its target's name where it says nothing; it
/// never goes nowhere.
pub proof fn answers_have_a_place(req: SelectionRequest)
    ensures
        req.property != 0 ==> property_meant(req) == req.property,
        req.property == 0 ==> property_meant(req) == req.target,
        req.target != 0 ==> property_meant(req) != 0,
{
}

/// Text arrives as it was sent, under any type but that of a transfer in pieces.
pub proof fn whole_transfers_are_read(s: Seq<char>, a: ClipAtoms, kind: u32)
    ensures
        kind == a.incr <==> transferred(a, kind, encode_utf8(s)) is None,
        kind != a.incr ==> transferred(a, kind, encode_utf8(s)) == Some(s),
{
    encode_utf8_valid_utf8(s);
    encode_utf8_decode_utf8(s);
}

} // verus!
