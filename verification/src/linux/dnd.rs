//! Files dragged onto a window: the receiving end of the drag-and-drop protocol.
//!
//! Only local files are taken. A drag that offers web addresses or plain text alone is
//! refused while it moves, so that the source shows its "forbidden" cursor.

use super::session::{Atoms, Message};
use crate::text;
use vstd::prelude::*;
use vstd::utf8::*;

verus! {

/// The protocol version that is spoken here.
pub const XDND_VERSION: u32 = 5;

/// Among the announced types, or in the full list that the source keeps when it announces more
/// than fit, stands the list of files.
pub fn enter_has_uris(announced: &[u32], uri_list: u32, extra: &[u32]) -> (r: bool)
    ensures
        r == (announced@.contains(uri_list) || extra@.contains(uri_list)),
{
    contains(announced, uri_list) || contains(extra, uri_list)
}

fn contains(v: &[u32], x: u32) -> (r: bool)
    ensures
        r == v@.contains(x),
{
    let mut i: usize = 0;
    while i < v.len()
        invariant
            i <= v@.len(),
            forall|j: int| 0 <= j < i ==> v@[j] != x,
        decreases v@.len() - i,
    {
        if v[i] == x {
            assert(v@[i as int] == x);
            return true;
        }
        i += 1;
    }
    false
}

/// The value of a hexadecimal digit.
pub open spec fn hex_value(b: u8) -> Option<u8> {
    if 0x30 <= b <= 0x39 {
        Some((b - 0x30) as u8)
    } else if 0x41 <= b <= 0x46 {
        Some((b - 0x41 + 10) as u8)
    } else if 0x61 <= b <= 0x66 {
        Some((b - 0x61 + 10) as u8)
    } else {
        None
    }
}

/// The byte that two hexadecimal digits after a percent sign stand for.
pub open spec fn escaped_byte(hi: u8, lo: u8) -> Option<u8> {
    match (hex_value(hi), hex_value(lo)) {
        (Some(h), Some(l)) => Some((h * 16 + l) as u8),
        _ => None,
    }
}

/// The bytes from position `i` on with every escape replaced; a broken or cut-off escape
/// spoils the whole text.
pub open spec fn unescaped(b: Seq<u8>, i: int) -> Option<Seq<u8>>
    decreases b.len() - i,
{
    if i < 0 || i >= b.len() {
        Some(Seq::empty())
    } else if b[i] == 0x25 {
        if i + 3 > b.len() {
            None
        } else {
            match (escaped_byte(b[i + 1], b[i + 2]), unescaped(b, i + 3)) {
                (Some(v), Some(t)) => Some(seq![v] + t),
                _ => None,
            }
        }
    } else {
        match unescaped(b, i + 1) {
            Some(t) => Some(seq![b[i]] + t),
            None => None,
        }
    }
}

/// A text with its percent escapes replaced, where the result is UTF-8.
pub open spec fn percent_decoded(s: Seq<char>) -> Option<Seq<char>> {
    match unescaped(encode_utf8(s), 0) {
        Some(b) => if valid_utf8(b) { Some(decode_utf8(b)) } else { None },
        None => None,
    }
}

/// The path of a `file:` address on this machine: the host part is empty or `localhost`.
pub open spec fn local_path(uri: Seq<char>) -> Option<Seq<char>> {
    if !"file://"@.is_prefix_of(uri) {
        None
    } else {
        let rest = uri.skip("file://"@.len() as int);
        let slash = text::first_at(rest, '/', 0);
        if slash >= rest.len() {
            None
        } else if slash == 0 || text::same_ignoring_ascii_case(
            rest.take(slash),
            "localhost"@,
        ) {
            percent_decoded(rest.skip(slash))
        } else {
            None
        }
    }
}

/// The local paths of the lines from `i` on; blank lines, comments and anything that is not a
/// local file are passed over.
pub open spec fn paths_from(lines: Seq<Seq<char>>, i: int) -> Seq<Seq<char>>
    decreases lines.len() - i,
{
    if i < 0 || i >= lines.len() {
        Seq::empty()
    } else {
        let rest = paths_from(lines, i + 1);
        let line = text::trimmed(lines[i]);
        if line.len() == 0 || line[0] == '#' {
            rest
        } else {
            match local_path(line) {
                Some(p) => seq![p] + rest,
                None => rest,
            }
        }
    }
}

/// Reads a `text/uri-list`.
pub fn parse_uri_list(data: &[u8]) -> (r: Vec<String>)
    ensures
        text::texts(r@) == paths_from(text::lines(text::lossy_text(data@)), 0),
        valid_utf8(data@) ==> text::texts(r@) == paths_from(text::lines(decode_utf8(data@)), 0),
{
    let decoded = text::from_utf8_lossy(data);
    uri_list_paths(decoded.as_str())
}

/// The local paths that a list of addresses names, in its order.
pub fn uri_list_paths(list: &str) -> (r: Vec<String>)
    ensures
        text::texts(r@) == paths_from(text::lines(list@), 0),
{
    let chars = text::chars_of(list);
    let lines = text::lines_of(&chars);
    let ghost all = text::lines(list@);
    let mut out: Vec<String> = Vec::new();
    let mut i: usize = 0;
    assert(text::texts(out@) + paths_from(all, 0) =~= paths_from(all, 0));
    while i < lines.len()
        invariant
            i <= lines@.len(),
            text::rows(lines@) == all,
            text::texts(out@) + paths_from(all, i as int) == paths_from(all, 0),
        decreases lines@.len() - i,
    {
        assert(all[i as int] == lines@[i as int]@);
        let ghost before = out@;
        let line = text::trim(&lines[i]);
        if line.len() > 0 && line[0] != '#' {
            if let Some(p) = local_file(&line) {
                out.push(p);
                assert(text::texts(out@) =~= text::texts(before).push(p@));
                assert(text::texts(out@) + paths_from(all, i + 1) =~= text::texts(before)
                    + paths_from(all, i as int));
            }
        }
        i += 1;
    }
    assert(text::texts(out@) + paths_from(all, i as int) =~= text::texts(out@));
    out
}

/// The path of a `file:` address on this machine.
pub fn file_uri_to_path(uri: &str) -> (r: Option<String>)
    ensures
        text::opt_text(r) == local_path(uri@),
{
    let c = text::chars_of(uri);
    local_file(&c)
}

fn local_file(uri: &[char]) -> (r: Option<String>)
    ensures
        text::opt_text(r) == local_path(uri@),
{
    if !text::starts_with(uri, "file://") {
        return None;
    }
    let skip: usize = text::chars_of("file://").len();
    let rest = text::sub_chars(uri, skip, uri.len());
    assert(rest@ =~= uri@.skip("file://"@.len() as int));
    let slash: usize = text::find(&rest, '/', 0);
    if slash == rest.len() {
        return None;
    }
    if slash > 0 {
        let host = text::sub_chars(&rest, 0, slash);
        assert(host@ =~= rest@.take(slash as int));
        let localhost = text::chars_of("localhost");
        if !text::eq_ignore_ascii_case(&host, &localhost) {
            return None;
        }
    }
    let path = text::sub_chars(&rest, slash, rest.len());
    assert(path@ =~= rest@.skip(slash as int));
    let path = text::string_of(&path);
    percent_decode(path.as_str())
}

fn hex_digit(b: u8) -> (r: Option<u8>)
    ensures
        r == hex_value(b),
        r matches Some(v) ==> v < 16,
{
    if 0x30 <= b && b <= 0x39 {
        Some(b - 0x30)
    } else if 0x41 <= b && b <= 0x46 {
        Some(b - 0x41 + 10)
    } else if 0x61 <= b && b <= 0x66 {
        Some(b - 0x61 + 10)
    } else {
        None
    }
}

fn escape_value(hi: u8, lo: u8) -> (r: Option<u8>)
    ensures
        r == escaped_byte(hi, lo),
{
    match (hex_digit(hi), hex_digit(lo)) {
        (Some(h), Some(l)) => Some(h * 16 + l),
        _ => None,
    }
}

/// Replaces percent escapes.
pub fn percent_decode(s: &str) -> (r: Option<String>)
    ensures
        text::opt_text(r) == percent_decoded(s@),
{
    let b = s.as_bytes();
    let mut out: Vec<u8> = Vec::new();
    let mut i: usize = 0;
    let ghost whole = unescaped(b@, 0);
    assert(whole matches Some(t) ==> out@ + t =~= t);
    while i < b.len()
        invariant
            i <= b@.len(),
            whole == (match unescaped(b@, i as int) {
                Some(t) => Some(out@ + t),
                None => None,
            }),
            whole == unescaped(b@, 0),
            b@ == encode_utf8(s@),
        decreases b@.len() - i,
    {
        let ghost before = out@;
        if b[i] == 0x25 {
            if b.len() - i < 3 {
                return None;
            }
            match escape_value(b[i + 1], b[i + 2]) {
                Some(v) => {
                    out.push(v);
                    proof {
                        if let Some(t) = unescaped(b@, i + 3) {
                            assert(before + (seq![v] + t) =~= out@ + t);
                        }
                    }
                },
                None => {
                    return None;
                },
            }
            i += 3;
        } else {
            out.push(b[i]);
            proof {
                if let Some(t) = unescaped(b@, i + 1) {
                    assert(before + (seq![b@[i as int]] + t) =~= out@ + t);
                }
            }
            i += 1;
        }
    }
    assert(out@ + Seq::<u8>::empty() =~= out@);
    text::from_utf8(out)
}

/// A drag over a window of this program.
#[derive(Clone, Copy, Debug, PartialEq, Eq, Structural)]
pub struct DragState {
    pub source: u32,
    pub target: u32,
    /// The source offers a list of files.
    pub has_uris: bool,
    /// Where the pointer last was, in the window.
    pub x: i32,
    pub y: i32,
    /// The data was asked for and is awaited.
    pub awaiting: bool,
}

/// What has to be looked up before a message can be taken.
#[derive(Clone, Copy, Debug, PartialEq, Eq, Structural)]
pub enum DndQuery {
    Nothing,
    /// The full list of types on the source window.
    Types { source: u32 },
    /// A point of the root window, seen from the target.
    Translate { target: u32, x: i16, y: i16 },
}

/// What a message is answered with.
#[derive(Clone, Copy, Debug, PartialEq, Eq, Structural)]
pub enum DndAction {
    Nothing,
    /// A message to the source.
    Reply { to: u32, kind: u32, d0: u32, d1: u32, d2: u32, d3: u32, d4: u32 },
    /// Ask for the data, as of this time.
    Convert { target: u32, time: u32 },
}

/// What has to be looked up: the list of types where more than three are announced, and the
/// place of the pointer.
pub open spec fn lookup(a: Atoms, m: Message) -> DndQuery {
    if m.kind == a.xdnd_enter {
        if m.d1 & 1 != 0 { DndQuery::Types { source: m.d0 } } else { DndQuery::Nothing }
    } else if m.kind == a.xdnd_position {
        DndQuery::Translate {
            target: m.window,
            x: (m.d2 >> 16) as i16,
            y: (m.d2 & 0xffff) as i16,
        }
    } else {
        DndQuery::Nothing
    }
}

pub fn dnd_query(a: Atoms, m: Message) -> (r: DndQuery)
    ensures
        r == lookup(a, m),
{
    if m.kind == a.xdnd_enter {
        if m.d1 & 1 != 0 {
            DndQuery::Types { source: m.d0 }
        } else {
            DndQuery::Nothing
        }
    } else if m.kind == a.xdnd_position {
        DndQuery::Translate {
            target: m.window,
            x: (m.d2 >> 16) as i16,
            y: (m.d2 & 0xffff) as i16,
        }
    } else {
        DndQuery::Nothing
    }
}

/// The drag comes from this source and brings files.
pub open spec fn acceptable(drag: Option<DragState>, source: u32) -> bool {
    drag matches Some(g) && g.source == source && g.has_uris
}

/// The drag and the answer after a message. `types` is the source's full list, `(x, y)` the
/// pointer seen from the target; `blocked` says that a modal window blocks the target.
pub open spec fn dnd_step(
    drag: Option<DragState>,
    a: Atoms,
    m: Message,
    types: Seq<u32>,
    x: i32,
    y: i32,
    blocked: bool,
) -> (Option<DragState>, DndAction) {
    let source = m.d0;
    let target = m.window;
    if m.kind == a.xdnd_enter {
        (
            Some(
                DragState {
                    source,
                    target,
                    has_uris: seq![m.d2, m.d3, m.d4].contains(a.text_uri_list) || types.contains(
                        a.text_uri_list,
                    ),
                    x: 0,
                    y: 0,
                    awaiting: false,
                },
            ),
            DndAction::Nothing,
        )
    } else if m.kind == a.xdnd_position {
        let accept = acceptable(drag, source) && !blocked;
        (
            match drag {
                Some(g) => Some(DragState { x, y, ..g }),
                None => None,
            },
            DndAction::Reply {
                to: source,
                kind: a.xdnd_status,
                d0: target,
                d1: if accept { 3 } else { 2 },
                d2: 0,
                d3: 0,
                d4: if accept { a.xdnd_action_copy } else { 0 },
            },
        )
    } else if m.kind == a.xdnd_drop {
        if acceptable(drag, source) && !blocked {
            (
                Some(DragState { awaiting: true, ..drag.unwrap() }),
                DndAction::Convert { target, time: m.d2 },
            )
        } else {
            (
                None,
                DndAction::Reply {
                    to: source,
                    kind: a.xdnd_finished,
                    d0: target,
                    d1: 0,
                    d2: 0,
                    d3: 0,
                    d4: 0,
                },
            )
        }
    } else if m.kind == a.xdnd_leave {
        (None, DndAction::Nothing)
    } else {
        (drag, DndAction::Nothing)
    }
}

/// Takes a drag-and-drop message.
pub fn on_dnd_message(
    drag: &mut Option<DragState>,
    a: Atoms,
    m: Message,
    types: &[u32],
    x: i32,
    y: i32,
    blocked: bool,
) -> (r: DndAction)
    ensures
        (*final(drag), r) == dnd_step(*old(drag), a, m, types@, x, y, blocked),
{
    let source: u32 = m.d0;
    let target: u32 = m.window;
    let offered = match drag {
        Some(g) => g.source == source && g.has_uris,
        None => false,
    };
    if m.kind == a.xdnd_enter {
        let announced: [u32; 3] = [m.d2, m.d3, m.d4];
        assert(announced@ =~= seq![m.d2, m.d3, m.d4]);
        let has_uris = enter_has_uris(&announced, a.text_uri_list, types);
        *drag = Some(DragState { source, target, has_uris, x: 0, y: 0, awaiting: false });
        DndAction::Nothing
    } else if m.kind == a.xdnd_position {
        let accept = offered && !blocked;
        if let Some(g) = drag {
            g.x = x;
            g.y = y;
        }
        DndAction::Reply {
            to: source,
            kind: a.xdnd_status,
            d0: target,
            d1: if accept {
                3
            } else {
                2
            },
            d2: 0,
            d3: 0,
            d4: if accept {
                a.xdnd_action_copy
            } else {
                0
            },
        }
    } else if m.kind == a.xdnd_drop {
        if offered && !blocked {
            if let Some(g) = drag {
                g.awaiting = true;
            }
            DndAction::Convert { target, time: m.d2 }
        } else {
            *drag = None;
            DndAction::Reply {
                to: source,
                kind: a.xdnd_finished,
                d0: target,
                d1: 0,
                d2: 0,
                d3: 0,
                d4: 0,
            }
        }
    } else if m.kind == a.xdnd_leave {
        *drag = None;
        DndAction::Nothing
    } else {
        DndAction::Nothing
    }
}

/// The data arrived: the drag it is for ends and is returned; data that nobody awaits changes
/// nothing.
pub fn on_dnd_data(drag: &mut Option<DragState>, requestor: u32) -> (r: Option<DragState>)
    ensures
        ({
            let awaited = *old(drag) matches Some(g) && g.awaiting && g.target == requestor;
            &&& r == (if awaited { *old(drag) } else { None })
            &&& *final(drag) == (if awaited { None } else { *old(drag) })
        }),
{
    let awaited = match drag {
        Some(g) => g.awaiting && g.target == requestor,
        None => false,
    };
    if awaited {
        let g = *drag;
        *drag = None;
        g
    } else {
        None
    }
}

/// The last message of a drag: whether files were taken.
pub fn dnd_finished(g: DragState, a: Atoms, accepted: bool) -> (r: DndAction)
    ensures
        r == (DndAction::Reply {
            to: g.source,
            kind: a.xdnd_finished,
            d0: g.target,
            d1: if accepted { 1 } else { 0 },
            d2: if accepted { a.xdnd_action_copy } else { 0 },
            d3: 0,
            d4: 0,
        }),
{
    let d1: u32 = if accepted { 1 } else { 0 };
    let d2: u32 = if accepted { a.xdnd_action_copy } else { 0 };
    DndAction::Reply { to: g.source, kind: a.xdnd_finished, d0: g.target, d1, d2, d3: 0, d4: 0 }
}

/// The kinds of messages are different atoms.
pub open spec fn dnd_atoms_distinct(a: Atoms) -> bool {
    &&& a.xdnd_enter != a.xdnd_position && a.xdnd_enter != a.xdnd_drop && a.xdnd_enter
        != a.xdnd_leave
    &&& a.xdnd_position != a.xdnd_drop && a.xdnd_position != a.xdnd_leave
    &&& a.xdnd_drop != a.xdnd_leave
}

/// A drag without files is refused all the way: it is never accepted while it moves, and its
/// drop asks for no data and is finished as refused.
pub proof fn drags_without_files_are_refused(
    drag: DragState,
    a: Atoms,
    m: Message,
    types: Seq<u32>,
    x: i32,
    y: i32,
    blocked: bool,
)
    requires
        !drag.has_uris,
        dnd_atoms_distinct(a),
        m.kind != a.xdnd_enter,
    ensures
        ({
            let (next, action) = dnd_step(Some(drag), a, m, types, x, y, blocked);
            &&& !(action is Convert)
            &&& action matches DndAction::Reply { to: _, kind: _, d0: _, d1, d2: _, d3: _, d4 }
                ==> d4 == 0 && d1 != 3
            &&& next matches Some(g) ==> !g.has_uris
        }),
{
}

/// A drop that is accepted was accepted while it moved, as long as nothing changed in between,
/// and its data is then awaited at that window.
pub proof fn accepted_drops_await_their_data(
    drag: DragState,
    a: Atoms,
    at: Message,
    drop: Message,
    types: Seq<u32>,
    x: i32,
    y: i32,
)
    requires
        dnd_atoms_distinct(a),
        at.kind == a.xdnd_position,
        drop.kind == a.xdnd_drop,
        at.d0 == drag.source && drop.d0 == drag.source,
        drag.has_uris,
    ensures
        ({
            let (moved, status) = dnd_step(Some(drag), a, at, types, x, y, false);
            let (dropped, action) = dnd_step(moved, a, drop, types, 0, 0, false);
            &&& status matches DndAction::Reply { to, kind, d0: _, d1, d2: _, d3: _, d4 } && to
                == drag.source && kind == a.xdnd_status && d1 == 3 && d4 == a.xdnd_action_copy
            &&& action == (DndAction::Convert { target: drop.window, time: drop.d2 })
            &&& dropped == Some(DragState { x, y, awaiting: true, ..drag })
        }),
{
}

/// The sixteen digits, in order.
pub open spec fn hex_digits(capitals: bool) -> Seq<char> {
    if capitals {
        seq!['0', '1', '2', '3', '4', '5', '6', '7', '8', '9', 'A', 'B', 'C', 'D', 'E', 'F']
    } else {
        seq!['0', '1', '2', '3', '4', '5', '6', '7', '8', '9', 'a', 'b', 'c', 'd', 'e', 'f']
    }
}

/// A byte written as an escape: a percent sign and two digits.
pub open spec fn escape_of(b: u8, capitals: bool) -> Seq<char> {
    seq!['%', hex_digits(capitals)[b as int / 16], hex_digits(capitals)[b as int % 16]]
}

/// Bytes written as escapes, one after the other.
pub open spec fn escapes_of(b: Seq<u8>, capitals: bool) -> Seq<char>
    decreases b.len(),
{
    if b.len() == 0 {
        Seq::empty()
    } else {
        escape_of(b[0], capitals) + escapes_of(b.skip(1), capitals)
    }
}

/// A text as it is written in an address: the characters that are plain stand for themselves,
/// and every other, a percent sign in any case, is written as the escapes of its bytes.
pub open spec fn written(s: Seq<char>, plain: spec_fn(char) -> bool, capitals: bool) -> Seq<char>
    decreases s.len(),
{
    if s.len() == 0 {
        Seq::empty()
    } else {
        (if plain(s[0]) && s[0] != '%' {
            seq![s[0]]
        } else {
            escapes_of(encode_utf8(seq![s[0]]), capitals)
        }) + written(s.skip(1), plain, capitals)
    }
}

/// Every byte is the value of its two digits, in capitals and in small letters alike, and nothing
/// but a pair of digits has a value.
pub proof fn digits_have_values(b: u8, high: bool, low: bool, x: u8, y: u8)
    ensures
        escaped_byte(
            hex_digits(high)[b as int / 16] as u8,
            hex_digits(low)[b as int % 16] as u8,
        ) == Some(b),
        escaped_byte(x, y) is Some ==> (exists|c: bool, i: int|
            0 <= i < 16 && x == #[trigger] hex_digits(c)[i] as u8) && (exists|c: bool, i: int|
            0 <= i < 16 && y == #[trigger] hex_digits(c)[i] as u8),
{
    let h = b as int / 16;
    let l = b as int % 16;
    digit_value(h, high);
    digit_value(l, low);
    if escaped_byte(x, y) is Some {
        value_of_a_digit(x);
        value_of_a_digit(y);
    }
}

proof fn digit_value(i: int, capitals: bool)
    requires
        0 <= i < 16,
    ensures
        hex_value(hex_digits(capitals)[i] as u8) == Some(i as u8),
{
}

proof fn value_of_a_digit(x: u8)
    requires
        hex_value(x) is Some,
    ensures
        exists|c: bool, i: int| 0 <= i < 16 && x == #[trigger] hex_digits(c)[i] as u8,
{
    let i = hex_value(x).unwrap() as int;
    if x <= 0x46 {
        assert(x == hex_digits(true)[i] as u8);
    } else {
        assert(x == hex_digits(false)[i] as u8);
    }
}

/// What stands before a position does not matter.
proof fn unescaped_from(x: Seq<u8>, b: Seq<u8>, i: int)
    requires
        0 <= i,
    ensures
        unescaped(x + b, x.len() + i) == unescaped(b, i),
    decreases b.len() - i,
{
    if i < b.len() {
        assert((x + b)[x.len() + i] == b[i]);
        if b[i] == 0x25 {
            if i + 3 <= b.len() {
                assert((x + b)[x.len() + i + 1] == b[i + 1]);
                assert((x + b)[x.len() + i + 2] == b[i + 2]);
                unescaped_from(x, b, i + 3);
            }
        } else {
            unescaped_from(x, b, i + 1);
        }
    }
}

/// Bytes without a percent sign stand for themselves.
proof fn plain_bytes_stay(a: Seq<u8>, b: Seq<u8>, i: int)
    requires
        0 <= i <= a.len(),
        forall|j: int| 0 <= j < a.len() ==> a[j] != 0x25,
    ensures
        unescaped(a + b, i) == (match unescaped(b, 0) {
            Some(t) => Some(a.skip(i) + t),
            None => None,
        }),
    decreases a.len() - i,
{
    if i == a.len() {
        unescaped_from(a, b, 0);
        if let Some(t) = unescaped(b, 0) {
            assert(a.skip(i) + t =~= t);
        }
    } else {
        plain_bytes_stay(a, b, i + 1);
        assert((a + b)[i] == a[i]);
        if let Some(t) = unescaped(b, 0) {
            assert(seq![a[i]] + (a.skip(i + 1) + t) =~= a.skip(i) + t);
        }
    }
}

/// The bytes of a character are its own for ASCII, and none of them is ASCII otherwise.
proof fn bytes_of_a_character(c: char)
    ensures
        encode_utf8(seq![c]) == encode_scalar(c as u32),
        c as u32 <= 0x7f ==> encode_scalar(c as u32) == seq![c as u8],
        c as u32 > 0x7f ==> forall|i: int|
            0 <= i < encode_scalar(c as u32).len() ==> #[trigger] encode_scalar(c as u32)[i] > 0x7f,
        encode_scalar(c as u32).len() > 0,
        c != '%' ==> forall|i: int|
            0 <= i < encode_scalar(c as u32).len() ==> #[trigger] encode_scalar(c as u32)[i] != 0x25,
{
    let s = seq![c];
    let u = c as u32;
    char_is_scalar(c);
    assert(s.drop_first() =~= Seq::<char>::empty());
    assert(encode_utf8(s.drop_first()) =~= Seq::<u8>::empty());
    assert(encode_utf8(s) =~= encode_scalar(u));
    assert(u <= 0x7f ==> (u & 0x7F) as u8 == u) by (bit_vector);
    assert(0xC0 | ((u >> 6) & 0x1F) as u8 > 0x7f && 0xE0 | ((u >> 12) & 0x0F) as u8 > 0x7f && 0xF0
        | ((u >> 18) & 0x7) as u8 > 0x7f && 0x80 | (u & 0x3F) as u8 > 0x7f && 0x80 | ((u >> 6)
        & 0x3F) as u8 > 0x7f && 0x80 | ((u >> 12) & 0x3F) as u8 > 0x7f) by (bit_vector);
}

/// The bytes of a text are those of its parts.
proof fn bytes_of_parts(a: Seq<char>, b: Seq<char>)
    ensures
        encode_utf8(a + b) == encode_utf8(a) + encode_utf8(b),
    decreases a.len(),
{
    if a.len() == 0 {
        assert(a + b =~= b);
        assert(encode_utf8(a) + encode_utf8(b) =~= encode_utf8(b));
    } else {
        assert((a + b).drop_first() =~= a.drop_first() + b);
        bytes_of_parts(a.drop_first(), b);
        assert(encode_utf8(a + b) =~= encode_utf8(a) + encode_utf8(b));
    }
}

/// The bytes of an escape are its characters.
proof fn bytes_of_an_escape(b: u8, capitals: bool)
    ensures
        encode_utf8(escape_of(b, capitals)) == seq![
            0x25u8,
            hex_digits(capitals)[b as int / 16] as u8,
            hex_digits(capitals)[b as int % 16] as u8,
        ],
{
    let e = escape_of(b, capitals);
    assert(is_ascii_chars(e));
    is_ascii_chars_encode_utf8(e);
    assert(encode_utf8(e) =~= seq![e[0] as u8, e[1] as u8, e[2] as u8]);
}

/// Escapes stand for their bytes.
proof fn escapes_read_back(b: Seq<u8>, capitals: bool, rest: Seq<u8>)
    ensures
        unescaped(encode_utf8(escapes_of(b, capitals)) + rest, 0) == (match unescaped(rest, 0) {
            Some(t) => Some(b + t),
            None => None,
        }),
    decreases b.len(),
{
    let whole = encode_utf8(escapes_of(b, capitals)) + rest;
    if b.len() == 0 {
        assert(encode_utf8(escapes_of(b, capitals)) =~= Seq::<u8>::empty());
        assert(whole =~= rest);
        if let Some(t) = unescaped(rest, 0) {
            assert(b + t =~= t);
        }
    } else {
        let tail = escapes_of(b.skip(1), capitals);
        bytes_of_parts(escape_of(b[0], capitals), tail);
        bytes_of_an_escape(b[0], capitals);
        let head = encode_utf8(escape_of(b[0], capitals));
        assert(whole =~= head + (encode_utf8(tail) + rest));
        unescaped_from(head, encode_utf8(tail) + rest, 0);
        escapes_read_back(b.skip(1), capitals, rest);
        digits_have_values(b[0], capitals, capitals, 0, 0);
        if let Some(t) = unescaped(rest, 0) {
            assert(seq![b[0]] + (b.skip(1) + t) =~= b + t);
        }
    }
}

/// A written text stands for the bytes of the text.
proof fn written_bytes_read_back(
    s: Seq<char>,
    plain: spec_fn(char) -> bool,
    capitals: bool,
    rest: Seq<u8>,
)
    ensures
        unescaped(encode_utf8(written(s, plain, capitals)) + rest, 0) == (match unescaped(rest, 0) {
            Some(t) => Some(encode_utf8(s) + t),
            None => None,
        }),
    decreases s.len(),
{
    let whole = encode_utf8(written(s, plain, capitals)) + rest;
    if s.len() == 0 {
        assert(encode_utf8(written(s, plain, capitals)) =~= Seq::<u8>::empty());
        assert(whole =~= rest);
        if let Some(t) = unescaped(rest, 0) {
            assert(encode_utf8(s) + t =~= t);
        }
    } else {
        let c = s[0];
        let tail = written(s.skip(1), plain, capitals);
        bytes_of_a_character(c);
        written_bytes_read_back(s.skip(1), plain, capitals, rest);
        assert(s =~= seq![c] + s.skip(1));
        bytes_of_parts(seq![c], s.skip(1));
        let after = encode_utf8(tail) + rest;
        if plain(c) && c != '%' {
            bytes_of_parts(seq![c], tail);
            let head = encode_scalar(c as u32);
            assert(whole =~= head + after);
            plain_bytes_stay(head, after, 0);
            assert(head.skip(0) =~= head);
        } else {
            let head = escapes_of(encode_utf8(seq![c]), capitals);
            bytes_of_parts(head, tail);
            assert(whole =~= encode_utf8(head) + after);
            escapes_read_back(encode_utf8(seq![c]), capitals, after);
        }
        if let Some(t) = unescaped(rest, 0) {
            assert(encode_scalar(c as u32) + (encode_utf8(s.skip(1)) + t) =~= encode_utf8(s) + t);
        }
    }
}

/// Escapes read back: whichever characters of a text are written as escapes, and in whichever
/// case their digits are, decoding gives the text again.
pub proof fn written_texts_read_back(s: Seq<char>, plain: spec_fn(char) -> bool, capitals: bool)
    ensures
        percent_decoded(written(s, plain, capitals)) == Some(s),
        percent_decoded(escapes_of(encode_utf8(s), capitals)) == Some(s),
        !s.contains('%') ==> percent_decoded(s) == Some(s),
{
    let nothing = Seq::<u8>::empty();
    written_bytes_read_back(s, plain, capitals, nothing);
    escapes_read_back(encode_utf8(s), capitals, nothing);
    assert(encode_utf8(written(s, plain, capitals)) + nothing =~= encode_utf8(
        written(s, plain, capitals),
    ));
    assert(encode_utf8(escapes_of(encode_utf8(s), capitals)) + nothing =~= encode_utf8(
        escapes_of(encode_utf8(s), capitals),
    ));
    assert(encode_utf8(s) + nothing =~= encode_utf8(s));
    encode_utf8_valid_utf8(s);
    encode_utf8_decode_utf8(s);
    if !s.contains('%') {
        let all = |c: char| true;
        written_bytes_read_back(s, all, capitals, nothing);
        plain_texts_are_written_as_they_are(s, all, capitals);
    }
}

proof fn plain_texts_are_written_as_they_are(
    s: Seq<char>,
    plain: spec_fn(char) -> bool,
    capitals: bool,
)
    requires
        forall|i: int| 0 <= i < s.len() ==> plain(#[trigger] s[i]),
        !s.contains('%'),
    ensures
        written(s, plain, capitals) == s,
    decreases s.len(),
{
    if s.len() > 0 {
        let rest = s.skip(1);
        assert(s[0] != '%');
        assert(plain(s[0]));
        assert forall|i: int| 0 <= i < rest.len() implies plain(#[trigger] rest[i]) && rest[i]
            != '%' by {
            assert(rest[i] == s[i + 1]);
        }
        plain_texts_are_written_as_they_are(rest, plain, capitals);
        assert(seq![s[0]] + rest =~= s);
    }
}

/// A percent sign without two digits behind it spoils the text, wherever it stands.
pub proof fn broken_escapes_are_refused(
    s: Seq<char>,
    plain: spec_fn(char) -> bool,
    capitals: bool,
    rest: Seq<char>,
)
    requires
        rest.len() > 0,
        rest[0] == '%',
        rest.len() < 3 || !is_hex_digit(rest[1]) || !is_hex_digit(rest[2]),
    ensures
        percent_decoded(written(s, plain, capitals) + rest) is None,
{
    let b = encode_utf8(rest);
    written_bytes_read_back(s, plain, capitals, b);
    bytes_of_parts(written(s, plain, capitals), rest);
    assert(rest =~= seq!['%'] + rest.skip(1));
    bytes_of_parts(seq!['%'], rest.skip(1));
    bytes_of_a_character('%');
    if rest.len() > 1 {
        let c = rest[1];
        assert(rest.skip(1) =~= seq![c] + rest.skip(2));
        bytes_of_parts(seq![c], rest.skip(2));
        bytes_of_a_character(c);
        if rest.len() > 2 {
            let d = rest[2];
            assert(rest.skip(2) =~= seq![d] + rest.skip(3));
            bytes_of_parts(seq![d], rest.skip(3));
            bytes_of_a_character(d);
            if is_hex_digit(c) {
                assert(b[2] == encode_scalar(d as u32)[0]);
                only_digits_have_values(d);
            }
        } else {
            assert(rest.skip(2) =~= Seq::<char>::empty());
        }
        assert(b[1] == encode_scalar(c as u32)[0]);
        only_digits_have_values(c);
    } else {
        assert(rest.skip(1) =~= Seq::<char>::empty());
    }
}

proof fn only_digits_have_values(c: char)
    ensures
        hex_value(encode_scalar(c as u32)[0]) is Some ==> is_hex_digit(c),
        is_hex_digit(c) ==> c as u32 <= 0x7f,
{
    let x = encode_scalar(c as u32)[0];
    bytes_of_a_character(c);
    if hex_value(x) is Some {
        value_of_a_digit(x);
        let (k, i) = choose|k: bool, i: int|
            0 <= i < 16 && x == #[trigger] hex_digits(k)[i] as u8;
        assert(c as u32 <= 0x7f);
        assert(c as u8 as u32 == c as u32);
        assert(hex_digits(k)[i] == c);
    }
}

/// One of the digits.
pub open spec fn is_hex_digit(c: char) -> bool {
    hex_digits(true).contains(c) || hex_digits(false).contains(c)
}

/// A written text begins as the text does where that character is plain; it holds no slash
/// unless the text does.
proof fn written_begins(s: Seq<char>, plain: spec_fn(char) -> bool, capitals: bool)
    requires
        s.len() > 0,
        plain(s[0]),
        s[0] != '%',
    ensures
        written(s, plain, capitals).len() > 0,
        written(s, plain, capitals)[0] == s[0],
{
}

/// The address of a file on this machine names its path, without a host and with the host
/// `localhost` in any case, however the path is written.
pub proof fn addresses_read_back(
    path: Seq<char>,
    host: Seq<char>,
    plain: spec_fn(char) -> bool,
    capitals: bool,
)
    requires
        path.len() > 0,
        path[0] == '/',
        plain('/'),
        host.len() == 0 || (host.len() == 9 && forall|i: int|
            0 <= i < 9 ==> #[trigger] host[i] == "localhost"@[i] || host[i] == "LOCALHOST"@[i]),
    ensures
        local_path("file://"@ + host + written(path, plain, capitals)) == Some(path),
{
    reveal_strlit("file://");
    reveal_strlit("localhost");
    reveal_strlit("LOCALHOST");
    let w = written(path, plain, capitals);
    let uri = "file://"@ + host + w;
    written_begins(path, plain, capitals);
    assert("file://"@.is_prefix_of(uri)) by {
        assert("file://"@ =~= uri.subrange(0, 7));
    }
    let rest = uri.skip(7);
    assert(rest =~= host + w);
    let n = host.len() as int;
    assert forall|i: int| 0 <= i < n implies rest[i] != '/' by {
        assert(rest[i] == host[i]);
    }
    text::the_first_is_found(rest, '/', 0, n);
    assert(rest.skip(n) =~= w);
    assert(rest.take(n) =~= host);
    if n > 0 {
        assert forall|i: int| 0 <= i < 9 implies text::ascii_lower(#[trigger] host[i])
            == text::ascii_lower("localhost"@[i]) by {
            assert(host[i] == "localhost"@[i] || host[i] == "LOCALHOST"@[i]);
        }
        assert(text::same_ignoring_ascii_case(host, "localhost"@));
    }
    written_texts_read_back(path, plain, capitals);
}

/// An address of another kind, or of a file on another machine, names no path here.
pub proof fn other_addresses_name_nothing(uri: Seq<char>, host: Seq<char>, path: Seq<char>)
    requires
        !host.contains('/'),
        host.len() > 0,
        host.len() != 9 || exists|i: int|
            0 <= i < 9 && #[trigger] host[i] != "localhost"@[i] && host[i] != "LOCALHOST"@[i],
        path.len() > 0 ==> path[0] == '/',
    ensures
        local_path("file://"@ + host + path) is None,
        (exists|i: int| 0 <= i < 7 && (i >= uri.len() || #[trigger] uri[i] != "file://"@[i]))
            ==> local_path(uri) is None,
{
    reveal_strlit("file://");
    reveal_strlit("localhost");
    reveal_strlit("LOCALHOST");
    let all = "file://"@ + host + path;
    assert("file://"@.is_prefix_of(all)) by {
        assert("file://"@ =~= all.subrange(0, 7));
    }
    let rest = all.skip(7);
    assert(rest =~= host + path);
    let n = host.len() as int;
    assert forall|i: int| 0 <= i < n implies rest[i] != '/' by {
        assert(rest[i] == host[i]);
        if host[i] == '/' {
            assert(host.contains('/'));
        }
    }
    text::the_first_is_found(rest, '/', 0, n);
    assert(rest.take(n) =~= host);
    if host.len() == 9 {
        let i = choose|i: int|
            0 <= i < 9 && #[trigger] host[i] != "localhost"@[i] && host[i] != "LOCALHOST"@[i];
        text::case_is_all_that_is_ignored(host, "localhost"@);
        assert(!text::same_ignoring_ascii_case(host, "localhost"@)) by {
            if text::same_ignoring_ascii_case(host, "localhost"@) {
                assert(host[i] == "localhost"@[i] || ('a' <= host[i] <= 'z' && "localhost"@[i] as u32
                    + 32 == host[i] as u32) || ('A' <= host[i] <= 'Z' && host[i] as u32 + 32
                    == "localhost"@[i] as u32));
            }
        }
    }
    if exists|i: int| 0 <= i < 7 && (i >= uri.len() || #[trigger] uri[i] != "file://"@[i]) {
        let i = choose|i: int| 0 <= i < 7 && (i >= uri.len() || #[trigger] uri[i] != "file://"@[i]);
        if "file://"@.is_prefix_of(uri) {
            assert(uri.subrange(0, 7)[i] == uri[i]);
        }
    }
}

/// A list of addresses names the path of each address in it that names one, in order; a comment,
/// a blank line and any other address name none.
pub proof fn lists_name_their_paths(lines: Seq<Seq<char>>, line: Seq<char>, p: Option<Seq<char>>)
    requires
        p == (if text::trimmed(line).len() == 0 || text::trimmed(line)[0] == '#' {
            None
        } else {
            local_path(text::trimmed(line))
        }),
    ensures
        paths_from(lines.push(line), 0) == (match p {
            Some(path) => paths_from(lines, 0).push(path),
            None => paths_from(lines, 0),
        }),
        paths_from(Seq::empty(), 0).len() == 0,
{
    one_more_line(lines, line, 0);
}

proof fn one_more_line(lines: Seq<Seq<char>>, line: Seq<char>, i: int)
    requires
        0 <= i <= lines.len(),
    ensures
        ({
            let t = text::trimmed(line);
            let p = if t.len() == 0 || t[0] == '#' { None } else { local_path(t) };
            paths_from(lines.push(line), i) == (match p {
                Some(path) => paths_from(lines, i).push(path),
                None => paths_from(lines, i),
            })
        }),
    decreases lines.len() - i,
{
    let all = lines.push(line);
    if i == lines.len() {
        assert(all[i] == line);
        assert(paths_from(all, i + 1) =~= Seq::empty());
        assert(paths_from(lines, i) =~= Seq::empty());
        let t = text::trimmed(line);
        if t.len() > 0 && t[0] != '#' {
            if let Some(p) = local_path(t) {
                assert(seq![p] + Seq::<Seq<char>>::empty() =~= Seq::<Seq<char>>::empty().push(p));
            }
        }
    } else {
        assert(all[i] == lines[i]);
        one_more_line(lines, line, i + 1);
        let t = text::trimmed(lines[i]);
        let u = text::trimmed(line);
        if t.len() > 0 && t[0] != '#' {
            if let Some(q) = local_path(t) {
                if u.len() > 0 && u[0] != '#' {
                    if let Some(p) = local_path(u) {
                        assert(seq![q] + paths_from(lines, i + 1).push(p) =~= (seq![q] + paths_from(
                            lines,
                            i + 1,
                        )).push(p));
                    }
                }
            }
        }
    }
}

/// The digits and percent signs of escapes are no white space, and neither is a written text.
proof fn written_has_no_space(s: Seq<char>, plain: spec_fn(char) -> bool, capitals: bool)
    requires
        forall|c: char| #[trigger] plain(c) ==> !text::white_space(c),
    ensures
        forall|i: int|
            0 <= i < written(s, plain, capitals).len() ==> !text::white_space(
                #[trigger] written(s, plain, capitals)[i],
            ),
    decreases s.len(),
{
    if s.len() > 0 {
        written_has_no_space(s.skip(1), plain, capitals);
        let b = encode_utf8(seq![s[0]]);
        escapes_have_no_space(b, capitals);
        let head = if plain(s[0]) && s[0] != '%' { seq![s[0]] } else { escapes_of(b, capitals) };
        let tail = written(s.skip(1), plain, capitals);
        assert forall|i: int| 0 <= i < (head + tail).len() implies !text::white_space(
            #[trigger] (head + tail)[i],
        ) by {
            if i < head.len() {
                assert((head + tail)[i] == head[i]);
            } else {
                assert((head + tail)[i] == tail[i - head.len()]);
            }
        }
    }
}

proof fn escapes_have_no_space(b: Seq<u8>, capitals: bool)
    ensures
        forall|i: int|
            0 <= i < escapes_of(b, capitals).len() ==> !text::white_space(
                #[trigger] escapes_of(b, capitals)[i],
            ),
    decreases b.len(),
{
    if b.len() > 0 {
        escapes_have_no_space(b.skip(1), capitals);
        let head = escape_of(b[0], capitals);
        let tail = escapes_of(b.skip(1), capitals);
        assert forall|i: int| 0 <= i < (head + tail).len() implies !text::white_space(
            #[trigger] (head + tail)[i],
        ) by {
            if i < 3 {
                assert((head + tail)[i] == head[i]);
            } else {
                assert((head + tail)[i] == tail[i - 3]);
            }
        }
    }
}

/// The lines of a list of files.
pub open spec fn address_lines(
    paths: Seq<Seq<char>>,
    plain: spec_fn(char) -> bool,
    capitals: bool,
) -> Seq<Seq<char>> {
    Seq::new(paths.len(), |i: int| "file://"@ + written(paths[i], plain, capitals))
}

/// A list of files reads back: one address to a line, the lines ended in either way, gives the
/// paths that it was made of.
pub proof fn file_lists_read_back(
    paths: Seq<Seq<char>>,
    plain: spec_fn(char) -> bool,
    capitals: bool,
    crlf: bool,
)
    requires
        forall|i: int| 0 <= i < paths.len() ==> (#[trigger] paths[i]).len() > 0 && paths[i][0] == '/',
        plain('/'),
        forall|c: char| #[trigger] plain(c) ==> !text::white_space(c),
    ensures
        paths_from(
            text::lines(text::joined_lines(address_lines(paths, plain, capitals), crlf)),
            0,
        ) == paths,
{
    let ls = address_lines(paths, plain, capitals);
    assert forall|i: int| 0 <= i < ls.len() implies no_space(#[trigger] ls[i]) && ls[i].len() > 0 by {
        reveal_strlit("file://");
        written_has_no_space(paths[i], plain, capitals);
        let w = written(paths[i], plain, capitals);
        assert forall|k: int| 0 <= k < ls[i].len() implies !text::white_space(
            #[trigger] ls[i][k],
        ) by {
            if k < 7 {
                assert(ls[i][k] == "file://"@[k]);
            } else {
                assert(ls[i][k] == w[k - 7]);
            }
        }
    }
    assert forall|i: int| 0 <= i < ls.len() implies !(#[trigger] ls[i]).contains('\n') by {
        assert(no_space(ls[i]));
        if ls[i].contains('\n') {
            let k = choose|k: int| 0 <= k < ls[i].len() && ls[i][k] == '\n';
            assert(!text::white_space(ls[i][k]));
        }
    }
    assert forall|i: int| 0 <= i < ls.len() && !crlf && (#[trigger] ls[i]).len() > 0 implies ls[i].last()
        != '\r' by {
        assert(no_space(ls[i]));
        assert(!text::white_space(ls[i][ls[i].len() - 1]));
    }
    let all = text::joined_lines(ls, crlf);
    text::lines_read_back(ls, crlf, Seq::empty());
    assert(all + Seq::<char>::empty() =~= all);
    assert forall|i: int| 0 <= i < ls.len() implies text::trimmed(#[trigger] ls[i]) == ls[i]
        && ls[i][0] == 'f' && local_path(ls[i]) == Some(paths[i]) by {
        reveal_strlit("file://");
        assert(no_space(ls[i]));
        assert(!text::white_space(ls[i][0]) && !text::white_space(ls[i][ls[i].len() - 1]));
        let e = Seq::<char>::empty();
        text::trimming_takes_the_space_around(e, ls[i], e);
        assert(e + ls[i] + e =~= ls[i]);
        addresses_read_back(paths[i], e, plain, capitals);
        assert("file://"@ + e + written(paths[i], plain, capitals) =~= ls[i]);
        assert(ls[i][0] == "file://"@[0]);
    }
    each_line_is_a_path(ls, paths, 0);
    assert(paths.skip(0) =~= paths);
}

spec fn no_space(s: Seq<char>) -> bool {
    forall|k: int| 0 <= k < s.len() ==> !text::white_space(#[trigger] s[k])
}

proof fn each_line_is_a_path(ls: Seq<Seq<char>>, paths: Seq<Seq<char>>, i: int)
    requires
        0 <= i <= ls.len(),
        ls.len() == paths.len(),
        forall|i: int|
            0 <= i < ls.len() ==> text::trimmed(#[trigger] ls[i]) == ls[i] && ls[i].len() > 0
                && ls[i][0] == 'f' && local_path(ls[i]) == Some(paths[i]),
    ensures
        paths_from(ls, i) == paths.skip(i),
    decreases ls.len() - i,
{
    if i < ls.len() {
        each_line_is_a_path(ls, paths, i + 1);
        assert(text::trimmed(ls[i]) == ls[i]);
        assert(seq![paths[i]] + paths.skip(i + 1) =~= paths.skip(i));
    } else {
        assert(paths.skip(i) =~= Seq::empty());
    }
}

/// The place of the pointer comes packed in one number, the column in its upper half and the row
/// in its lower, each as a signed number; it is looked up for the window that the drag is over.
pub proof fn places_are_unpacked(a: Atoms, m: Message, col: i16, row: i16)
    requires
        dnd_atoms_distinct(a),
        m.kind == a.xdnd_position,
        m.d2 == (if col < 0 { col + 0x1_0000 } else { col as int }) * 0x1_0000 + (if row < 0 {
            row + 0x1_0000
        } else {
            row as int
        }),
    ensures
        lookup(a, m) == (DndQuery::Translate { target: m.window, x: col, y: row }),
{
    let d = m.d2;
    let c: u16 = (if col < 0 { col + 0x1_0000 } else { col as int }) as u16;
    let r: u16 = (if row < 0 { row + 0x1_0000 } else { row as int }) as u16;
    assert(d == c * 0x1_0000 + r);
    assert((d >> 16) == c && (d & 0xffff) == r) by (bit_vector)
        requires
            d == c * 0x1_0000 + r,
    ;
    let hi: u32 = d >> 16;
    let lo: u32 = d & 0xffff;
    assert(hi < 0x1_0000 && lo < 0x1_0000);
    assert(hi < 0x1_0000 ==> hi as i16 == (if hi >= 0x8000 { hi - 0x1_0000 } else { hi as int }))
        by (bit_vector);
    assert(lo < 0x1_0000 ==> lo as i16 == (if lo >= 0x8000 { lo - 0x1_0000 } else { lo as int }))
        by (bit_vector);
}

/// The list of types is looked up on the source when the first bit of the second number says that
/// there are more than fit in the message; nothing else is looked up but the place.
pub proof fn more_types_are_looked_up(a: Atoms, m: Message)
    requires
        dnd_atoms_distinct(a),
    ensures
        m.kind == a.xdnd_enter ==> lookup(a, m) == (if m.d1 % 2 == 1 {
            DndQuery::Types { source: m.d0 }
        } else {
            DndQuery::Nothing
        }),
        m.kind != a.xdnd_enter && m.kind != a.xdnd_position ==> lookup(a, m) is Nothing,
        m.kind == a.xdnd_position ==> lookup(a, m) is Translate,
{
    let d = m.d1;
    assert((d & 1 != 0) == (d % 2 == 1)) by (bit_vector);
}

/// A drag from its beginning to its drop. It brings files exactly when one of the three types in
/// its first message, or one of the source's list, is the list of files. It is then accepted over
/// every window that is not blocked, by an answer to its source about that window, and refused by
/// one over every other; the place that it was last at is kept, and its drop is answered by
/// asking for the data as of the time of the drop.
pub proof fn a_drag_from_enter_to_drop(
    before: Option<DragState>,
    a: Atoms,
    enter: Message,
    at: Message,
    drop: Message,
    types: Seq<u32>,
    x: i32,
    y: i32,
    blocked: bool,
)
    requires
        dnd_atoms_distinct(a),
        enter.kind == a.xdnd_enter,
        at.kind == a.xdnd_position,
        drop.kind == a.xdnd_drop,
        at.d0 == enter.d0,
        drop.d0 == enter.d0,
    ensures
        ({
            let files = enter.d2 == a.text_uri_list || enter.d3 == a.text_uri_list || enter.d4
                == a.text_uri_list || types.contains(a.text_uri_list);
            let (entered, first) = dnd_step(before, a, enter, types, 0, 0, blocked);
            let (moved, status) = dnd_step(entered, a, at, Seq::empty(), x, y, blocked);
            let (dropped, last) = dnd_step(moved, a, drop, Seq::empty(), 0, 0, blocked);
            &&& first is Nothing
            &&& entered matches Some(g) && g.source == enter.d0 && g.target == enter.window
                && g.has_uris == files && !g.awaiting
            &&& moved matches Some(g) && g.x == x && g.y == y && g.source == enter.d0 && g.has_uris
                == files && g.target == enter.window && !g.awaiting
            &&& status == (if files && !blocked {
                DndAction::Reply {
                    to: enter.d0,
                    kind: a.xdnd_status,
                    d0: at.window,
                    d1: 3,
                    d2: 0,
                    d3: 0,
                    d4: a.xdnd_action_copy,
                }
            } else {
                DndAction::Reply {
                    to: enter.d0,
                    kind: a.xdnd_status,
                    d0: at.window,
                    d1: 2,
                    d2: 0,
                    d3: 0,
                    d4: 0,
                }
            })
            &&& files && !blocked ==> last == (DndAction::Convert {
                target: drop.window,
                time: drop.d2,
            }) && dropped == Some(DragState { awaiting: true, ..moved.unwrap() })
            &&& !(files && !blocked) ==> dropped is None && last == (DndAction::Reply {
                to: enter.d0,
                kind: a.xdnd_finished,
                d0: drop.window,
                d1: 0,
                d2: 0,
                d3: 0,
                d4: 0,
            })
        }),
{
    let announced = seq![enter.d2, enter.d3, enter.d4];
    let u = a.text_uri_list;
    if announced.contains(u) {
        let k = choose|k: int| 0 <= k < announced.len() && announced[k] == u;
        assert(k == 0 || k == 1 || k == 2);
    }
    assert(announced[0] == enter.d2 && announced[1] == enter.d3 && announced[2] == enter.d4);
}

/// A source that did not begin the drag is refused, and a drag that left is forgotten: nothing is
/// asked for until another begins.
pub proof fn other_sources_are_refused(
    drag: Option<DragState>,
    a: Atoms,
    m: Message,
    types: Seq<u32>,
    x: i32,
    y: i32,
    blocked: bool,
)
    requires
        dnd_atoms_distinct(a),
        m.kind != a.xdnd_enter,
        drag matches Some(g) ==> g.source != m.d0,
    ensures
        ({
            let (after, action) = dnd_step(drag, a, m, types, x, y, blocked);
            &&& !(action is Convert)
            &&& action matches DndAction::Reply { to, kind: _, d0, d1, d2: _, d3: _, d4 } ==> to
                == m.d0 && d0 == m.window && d1 != 3 && d4 == 0
            &&& m.kind == a.xdnd_leave ==> after is None && action is Nothing
            &&& m.kind != a.xdnd_leave && m.kind != a.xdnd_position && m.kind != a.xdnd_drop
                ==> after == drag && action is Nothing
        }),
{
}

/// An address without a path names none, whatever its host is.
pub proof fn addresses_need_a_path(host: Seq<char>)
    requires
        !host.contains('/'),
    ensures
        local_path("file://"@ + host) is None,
{
    reveal_strlit("file://");
    let uri = "file://"@ + host;
    assert("file://"@.is_prefix_of(uri)) by {
        assert("file://"@ =~= uri.subrange(0, 7));
    }
    let rest = uri.skip(7);
    assert(rest =~= host);
    assert forall|i: int| 0 <= i < rest.len() implies rest[i] != '/' by {
        assert(host.contains(host[i]));
    }
    text::the_first_is_found(rest, '/', 0, rest.len() as int);
}

} // verus!
