//! Dragging files out of a window: the list that the receiver reads, and what became of the drag.

use super::chars;
use crate::event::DragEffect;
use crate::text;
use vstd::prelude::*;

verus! {

/// The clipboard format of a file list.
pub const CF_HDROP: u16 = 15;

/// The aspect of the content itself.
pub const DVASPECT_CONTENT: u32 = 1;

/// The bit of global memory among the media.
pub const TYMED_HGLOBAL: u32 = 1;

/// The header's length, which is also where the list starts.
pub const DROPFILES_LEN: u8 = 20;

pub const DROPEFFECT_COPY: u32 = 1;

pub const DROPEFFECT_MOVE: u32 = 2;

pub const DROPEFFECT_LINK: u32 = 4;

/// The paths, each with a zero behind it, and one more zero behind all of them.
pub open spec fn path_list(paths: Seq<String>) -> Seq<u16>
    decreases paths.len(),
{
    if paths.len() == 0 {
        Seq::empty()
    } else {
        path_list(paths.drop_last()) + chars::utf16(paths.last()@).push(0)
    }
}

/// The bytes of sixteen-bit units, low byte first.
pub open spec fn le_bytes(units: Seq<u16>) -> Seq<u8> {
    Seq::new(
        units.len() * 2,
        |i: int| if i % 2 == 0 { (units[i / 2] % 256) as u8 } else { (units[i / 2] / 256) as u8 },
    )
}

/// The header: where the list starts, no drop point, wide characters.
pub open spec fn header() -> Seq<u8> {
    seq![DROPFILES_LEN, 0, 0, 0, 0, 0, 0, 0, 0, 0, 0, 0, 0, 0, 0, 0, 1, 0, 0, 0]
}

/// A file list as the receiver reads it.
pub open spec fn hdrop(paths: Seq<String>) -> Seq<u8> {
    header() + le_bytes(path_list(paths).push(0))
}

/// The file list of some paths.
pub fn hdrop_bytes(paths: &[String]) -> (r: Vec<u8>)
    ensures
        r@ == hdrop(paths@),
{
    let mut wide: Vec<u16> = Vec::new();
    let n: usize = paths.len();
    let mut i: usize = 0;
    while i < n
        invariant
            i <= n,
            n == paths@.len(),
            wide@ == path_list(paths@.take(i as int)),
        decreases n - i,
    {
        let ghost before = wide@;
        chars::push_utf16(&mut wide, paths[i].as_str());
        wide.push(0);
        assert(paths@.take(i + 1).drop_last() =~= paths@.take(i as int));
        assert(wide@ =~= before + chars::utf16(paths@[i as int]@).push(0));
        i += 1;
    }
    assert(paths@.take(n as int) =~= paths@);
    wide.push(0);
    let mut out: Vec<u8> = vec![
        DROPFILES_LEN, 0, 0, 0, 0, 0, 0, 0, 0, 0, 0, 0, 0, 0, 0, 0, 1, 0, 0, 0,
    ];
    assert(out@ =~= header());
    let m: usize = wide.len();
    let mut k: usize = 0;
    while k < m
        invariant
            k <= m,
            m == wide@.len(),
            out@ == header() + le_bytes(wide@.take(k as int)),
        decreases m - k,
    {
        let unit: u16 = wide[k];
        out.push((unit % 256) as u8);
        out.push((unit / 256) as u8);
        assert(out@ =~= header() + le_bytes(wide@.take(k + 1)));
        k += 1;
    }
    assert(wide@.take(m as int) =~= wide@);
    out
}

/// The paths of the files that were dropped, each as the system spells it; one without a name is
/// passed over.
pub open spec fn dropped(files: Seq<Vec<u16>>) -> Seq<Seq<char>>
    decreases files.len(),
{
    if files.len() == 0 {
        Seq::empty()
    } else if files.last()@.len() == 0 {
        dropped(files.drop_last())
    } else {
        dropped(files.drop_last()).push(chars::decoded(files.last()@))
    }
}

/// The paths of the files that were dropped on a window.
pub fn dropped_paths(files: &Vec<Vec<u16>>) -> (r: Vec<String>)
    ensures
        text::texts(r@) == dropped(files@),
{
    let mut out: Vec<String> = Vec::new();
    let n: usize = files.len();
    let mut i: usize = 0;
    assert(text::texts(out@) =~= dropped(files@.take(0)));
    while i < n
        invariant
            i <= n,
            n == files@.len(),
            text::texts(out@) == dropped(files@.take(i as int)),
        decreases n - i,
    {
        let ghost before = out@;
        assert(files@.take(i + 1).drop_last() =~= files@.take(i as int));
        if files[i].len() > 0 {
            let path = chars::decode_wide(files[i].as_slice());
            out.push(path);
            assert(text::texts(out@) =~= text::texts(before).push(path@));
        }
        i += 1;
    }
    assert(files@.take(n as int) =~= files@);
    out
}

/// What a receiver asks for.
#[derive(Clone, Copy, Debug, PartialEq, Eq, Structural)]
pub struct FormatRequest {
    pub format: u16,
    pub aspect: u32,
    pub media: u32,
}

/// The answer to a receiver.
#[derive(Clone, Copy, Debug, PartialEq, Eq, Structural)]
pub enum FormatAnswer {
    WrongFormat,
    WrongMedium,
    Available,
}

/// Whether what a receiver asks for is there: the file list, in global memory.
pub fn query_get_data(request: Option<FormatRequest>) -> (r: FormatAnswer)
    ensures
        r == (match request {
            None => FormatAnswer::WrongFormat,
            Some(f) => if f.format != CF_HDROP || f.aspect != DVASPECT_CONTENT {
                FormatAnswer::WrongFormat
            } else if f.media % 2 == 0 {
                FormatAnswer::WrongMedium
            } else {
                FormatAnswer::Available
            },
        }),
{
    match request {
        None => FormatAnswer::WrongFormat,
        Some(f) => if f.format != CF_HDROP || f.aspect != DVASPECT_CONTENT {
            FormatAnswer::WrongFormat
        } else if f.media % 2 == 0 {
            FormatAnswer::WrongMedium
        } else {
            FormatAnswer::Available
        },
    }
}

/// How a drag goes on.
#[derive(Clone, Copy, Debug, PartialEq, Eq, Structural)]
pub enum DragStep {
    Cancel,
    Drop,
    Go,
}

/// How a drag goes on: Escape cancels it, and letting go of the left button, the lowest of the
/// key bits, drops it.
pub fn query_continue_drag(escape: bool, keys: u32) -> (r: DragStep)
    ensures
        r == (if escape {
            DragStep::Cancel
        } else if keys % 2 == 0 {
            DragStep::Drop
        } else {
            DragStep::Go
        }),
{
    if escape {
        DragStep::Cancel
    } else if keys % 2 == 0 {
        DragStep::Drop
    } else {
        DragStep::Go
    }
}

/// The effects that a drag offers: copy and link, and move where it is allowed.
pub open spec fn offered(allow_move: bool) -> u32 {
    if allow_move { 7 } else { 5 }
}

/// What became of a drag: `effect` is set where something was dropped. A move comes before a
/// copy, and a copy before a link.
pub open spec fn effect_of(effect: Option<u32>) -> DragEffect {
    match effect {
        None => DragEffect::Nothing,
        Some(e) => if e / 2 % 2 == 1 {
            DragEffect::Move
        } else if e % 2 == 1 {
            DragEffect::Copy
        } else if e / 4 % 2 == 1 {
            DragEffect::Link
        } else {
            DragEffect::Nothing
        },
    }
}

pub fn drag_effect(effect: Option<u32>) -> (r: DragEffect)
    ensures
        r == effect_of(effect),
{
    match effect {
        None => DragEffect::Nothing,
        Some(e) => if e / 2 % 2 == 1 {
            DragEffect::Move
        } else if e % 2 == 1 {
            DragEffect::Copy
        } else if e / 4 % 2 == 1 {
            DragEffect::Link
        } else {
            DragEffect::Nothing
        },
    }
}

/// Drags files out of the window. `do_drag` runs the drag with a file list and the effects on
/// offer until the button is let go, and returns the effect where something was dropped. Without
/// paths there is no drag.
pub fn drag_files<D: FnOnce(Vec<u8>, u32) -> Option<u32>>(
    paths: &[String],
    allow_move: bool,
    do_drag: D,
) -> (r: DragEffect)
    requires
        forall|b: Vec<u8>, e: u32| call_requires(do_drag, (b, e)),
    ensures
        paths@.len() == 0 ==> r == DragEffect::Nothing,
        paths@.len() > 0 ==> exists|b: Vec<u8>, out: Option<u32>| #[trigger]
            call_ensures(do_drag, (b, offered(allow_move)), out) && b@ == hdrop(paths@) && r
                == effect_of(out),
{
    if paths.len() == 0 {
        return DragEffect::Nothing;
    }
    let allowed: u32 = if allow_move {
        DROPEFFECT_COPY + DROPEFFECT_LINK + DROPEFFECT_MOVE
    } else {
        DROPEFFECT_COPY + DROPEFFECT_LINK
    };
    let bytes = hdrop_bytes(paths);
    let ghost list = bytes;
    let ghost drag = do_drag;
    let out = do_drag(bytes, allowed);
    assert(call_ensures(drag, (list, offered(allow_move)), out));
    drag_effect(out)
}

/// A receiver finds the list where the header says, and reads there the units that were written.
pub proof fn the_list_reads_back(paths: Seq<String>, i: int)
    requires
        0 <= i < path_list(paths).len() + 1,
    ensures
        hdrop(paths)[0] == header().len(),
        hdrop(paths).len() == header().len() + (path_list(paths).len() + 1) * 2,
        ({
            let at = header().len() + i * 2;
            hdrop(paths)[at] + hdrop(paths)[at + 1] * 256 == path_list(paths).push(0)[i]
        }),
{
    let units = path_list(paths).push(0);
    let at = header().len() + i * 2;
    assert(hdrop(paths)[at] == le_bytes(units)[i * 2]);
    assert(hdrop(paths)[at + 1] == le_bytes(units)[i * 2 + 1]);
    assert((i * 2) / 2 == i && (i * 2 + 1) / 2 == i);
}

/// The first zero at or after `from`, or the length where there is none.
pub open spec fn zero_at(units: Seq<u16>, from: int) -> int
    decreases units.len() - from,
{
    if from < 0 || from >= units.len() {
        units.len() as int
    } else if units[from] == 0 {
        from
    } else {
        zero_at(units, from + 1)
    }
}

/// The texts of a list in which each ends in a zero and an empty one ends the list.
pub open spec fn listed(units: Seq<u16>) -> Seq<Seq<char>>
    decreases units.len(),
{
    let z = zero_at(units, 0);
    if z <= 0 || z >= units.len() {
        Seq::empty()
    } else {
        seq![chars::decoded(units.take(z))] + listed(units.skip(z + 1))
    }
}

proof fn zero_behind(a: Seq<u16>, rest: Seq<u16>, from: int)
    requires
        !a.contains(0u16),
        0 <= from <= a.len(),
    ensures
        zero_at(a.push(0) + rest, from) == a.len(),
    decreases a.len() - from,
{
    let all = a.push(0) + rest;
    if from < a.len() {
        assert(all[from] == a[from]);
        assert(a[from] != 0) by {
            if a[from] == 0 {
                assert(a.contains(0u16));
            }
        }
        zero_behind(a, rest, from + 1);
    } else {
        assert(all[from] == 0);
    }
}

proof fn list_from_the_front(paths: Seq<String>)
    requires
        paths.len() > 0,
    ensures
        path_list(paths) == chars::utf16(paths[0]@).push(0) + path_list(paths.skip(1)),
    decreases paths.len(),
{
    let before = paths.drop_last();
    if paths.len() > 1 {
        list_from_the_front(before);
        assert(paths.skip(1).drop_last() =~= before.skip(1));
        assert(paths.skip(1).last() == paths.last());
        let head = chars::utf16(paths[0]@).push(0);
        assert(path_list(paths) =~= head + (path_list(before.skip(1)) + chars::utf16(
            paths.last()@,
        ).push(0)));
    } else {
        assert(before =~= Seq::empty());
        assert(paths.skip(1) =~= Seq::empty());
        assert(path_list(paths) =~= chars::utf16(paths[0]@).push(0) + path_list(paths.skip(1)));
    }
}

/// The receiver reads the paths that were dragged, in their order. A path that is empty, or that
/// holds a null character, would end the list early.
pub proof fn the_paths_read_back(paths: Seq<String>)
    requires
        forall|i: int|
            0 <= i < paths.len() ==> (#[trigger] paths[i])@.len() > 0 && !paths[i]@.contains('\0'),
    ensures
        listed(path_list(paths).push(0)) == text::texts(paths),
    decreases paths.len(),
{
    let units = path_list(paths).push(0);
    if paths.len() == 0 {
        assert(units =~= seq![0u16]);
        assert(zero_at(units, 0) == 0);
        assert(text::texts(paths) =~= Seq::empty());
    } else {
        let rest = paths.skip(1);
        let head = chars::utf16(paths[0]@);
        let tail = path_list(rest).push(0);
        list_from_the_front(paths);
        assert(units =~= head.push(0) + tail);
        chars::utf16_has_no_zero(paths[0]@);
        zero_behind(head, tail, 0);
        assert((head.push(0) + tail).take(head.len() as int) =~= head);
        assert((head.push(0) + tail).skip(head.len() as int + 1) =~= tail);
        chars::utf16_reads_back(paths[0]@);
        assert forall|i: int| 0 <= i < rest.len() implies (#[trigger] rest[i])@.len() > 0
            && !rest[i]@.contains('\0') by {
            assert(rest[i] == paths[i + 1]);
        }
        the_paths_read_back(rest);
        assert(text::texts(paths) =~= seq![paths[0]@] + text::texts(rest));
    }
}

/// Only what was offered comes back as an effect: where moving was not allowed and the receiver
/// keeps to the offer, nothing was moved.
pub proof fn no_move_without_leave(e: u32)
    requires
        e & 5 == e,
    ensures
        effect_of(Some(e)) != DragEffect::Move,
{
    assert(e & 5 == e ==> e / 2 % 2 == 0) by (bit_vector);
}

/// The header takes twenty bytes: the place of the list behind it, then no point, and a one that
/// says that the list is in wide characters.
pub proof fn the_header_says_where_the_list_is(paths: Seq<String>)
    ensures
        header().len() == 20,
        hdrop(paths)[0] == 20,
        hdrop(paths)[16] == 1,
        forall|i: int| 0 < i < 20 && i != 16 ==> #[trigger] hdrop(paths)[i] == 0,
        hdrop(paths).skip(20) == le_bytes(path_list(paths).push(0)),
{
    assert(hdrop(paths).skip(20) =~= le_bytes(path_list(paths).push(0)));
}

/// The units that were written can be read from the bytes, low byte first.
pub proof fn units_read_back(units: Seq<u16>, i: int)
    requires
        0 <= i < units.len(),
    ensures
        le_bytes(units).len() == 2 * units.len(),
        le_bytes(units)[2 * i] + 256 * le_bytes(units)[2 * i + 1] == units[i],
{
    assert((2 * i) % 2 == 0 && (2 * i) / 2 == i);
    assert((2 * i + 1) % 2 == 1 && (2 * i + 1) / 2 == i);
}

/// The files that were dropped come in their order; one without a name is passed over.
pub proof fn dropped_files_come_in_order(files: Seq<Vec<u16>>, file: Vec<u16>, name: Seq<char>)
    ensures
        file@.len() == 0 ==> dropped(files.push(file)) == dropped(files),
        file@.len() > 0 && file@ == chars::utf16(name) ==> dropped(files.push(file)) == dropped(
            files,
        ).push(name),
        dropped(files).len() <= files.len(),
    decreases files.len(),
{
    let all = files.push(file);
    assert(all.drop_last() =~= files);
    assert(all.last() == file);
    chars::utf16_reads_back(name);
    if files.len() > 0 {
        dropped_files_come_in_order(files.drop_last(), file, name);
    }
}

/// What is offered can be told from what comes back: a copy and a link are always on offer, a move
/// only where it is allowed. Of what comes back a move counts most and a link least; nothing comes
/// of a drag without an effect.
pub proof fn effects_are_told_apart(bits: u32)
    ensures
        offered(true) == 1 + 2 + 4,
        offered(false) == 1 + 4,
        effect_of(None) == DragEffect::Nothing,
        bits % 8 == 0 <==> effect_of(Some(bits)) == DragEffect::Nothing,
        bits % 8 == 1 || bits % 8 == 5 <==> effect_of(Some(bits)) == DragEffect::Copy,
        bits % 8 == 4 <==> effect_of(Some(bits)) == DragEffect::Link,
        bits % 4 >= 2 <==> effect_of(Some(bits)) == DragEffect::Move,
{
}

} // verus!
