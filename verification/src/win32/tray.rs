//! The tray icon: its registration data, its messages and its menu.

use super::chars;
use super::message;
use crate::event::CallbackWindows;
use crate::surface::{self, ByteOrder};
use crate::tray::{self, MenuEntry, MenuEntryView, Tray, TrayAction, TrayCtx};
use vstd::prelude::*;

verus! {

pub const NIF_MESSAGE: u32 = 1;

pub const NIF_ICON: u32 = 2;

pub const NIF_TIP: u32 = 4;

pub const NIF_INFO: u32 = 16;

pub const NIIF_INFO: u32 = 1;

pub const MF_GRAYED: u32 = 1;

pub const MF_CHECKED: u32 = 8;

pub const MF_SEPARATOR: u32 = 0x800;

/// Lengths of the registration data's texts, with the zero behind each.
pub const TIP_LEN: usize = 128;

pub const INFO_LEN: usize = 256;

pub const INFO_TITLE_LEN: usize = 64;

/// The taskbar has been made anew: the icon has to be added again. Where the message could not
/// be registered no message means that.
pub fn is_taskbar_created(msg: u32, registered: u32) -> (r: bool)
    ensures
        r == (registered != 0 && msg == registered),
{
    registered != 0 && msg == registered
}

/// What happened to the icon.
#[derive(Clone, Copy, Debug, PartialEq, Eq, Structural)]
pub enum TrayEvent {
    Click { double: bool },
    RightClick,
    Other,
}

/// What a message of the icon says.
pub open spec fn event_of(event: u32) -> TrayEvent {
    if event == message::WM_LBUTTONUP {
        TrayEvent::Click { double: false }
    } else if event == message::WM_LBUTTONDBLCLK {
        TrayEvent::Click { double: true }
    } else if event == message::WM_RBUTTONUP {
        TrayEvent::RightClick
    } else {
        TrayEvent::Other
    }
}

pub fn classify(event: u32) -> (r: TrayEvent)
    ensures
        r == event_of(event),
{
    match event {
        message::WM_LBUTTONUP => TrayEvent::Click { double: false },
        message::WM_LBUTTONDBLCLK => TrayEvent::Click { double: true },
        message::WM_RBUTTONUP => TrayEvent::RightClick,
        _ => TrayEvent::Other,
    }
}

/// The data that registers, changes or removes an icon.
pub struct NotifyIconData {
    pub hwnd: isize,
    pub uid: u32,
    pub flags: u32,
    pub callback_message: u32,
    pub icon: isize,
    pub tip: Vec<u16>,
    pub info: Vec<u16>,
    pub info_title: Vec<u16>,
    pub info_flags: u32,
}

/// A text of fixed length, empty.
pub open spec fn blank(n: nat) -> Seq<u16> {
    Seq::new(n, |i: int| 0u16)
}

fn zeros(n: usize) -> (r: Vec<u16>)
    ensures
        r@ == blank(n as nat),
{
    let mut out: Vec<u16> = Vec::new();
    let mut i: usize = 0;
    while i < n
        invariant
            i <= n,
            out@ == blank(i as nat),
        decreases n - i,
    {
        out.push(0);
        assert(out@ =~= blank((i + 1) as nat));
        i += 1;
    }
    out
}

impl NotifyIconData {
    /// An icon's identity, and nothing else.
    pub open spec fn bare(self, hwnd: isize, uid: u32) -> bool {
        &&& self.hwnd == hwnd && self.uid == uid
        &&& self.flags == 0 && self.callback_message == 0 && self.icon == 0 && self.info_flags == 0
        &&& self.tip@ == blank(TIP_LEN as nat)
        &&& self.info@ == blank(INFO_LEN as nat)
        &&& self.info_title@ == blank(INFO_TITLE_LEN as nat)
    }
}

/// Data that names an icon.
pub fn base_nid(hwnd: isize, uid: u32) -> (r: NotifyIconData)
    ensures
        r.bare(hwnd, uid),
{
    NotifyIconData {
        hwnd,
        uid,
        flags: 0,
        callback_message: 0,
        icon: 0,
        tip: zeros(TIP_LEN),
        info: zeros(INFO_LEN),
        info_title: zeros(INFO_TITLE_LEN),
        info_flags: 0,
    }
}

/// Data that registers an icon: its picture, the message that it sends and its tip.
pub fn add_nid(hwnd: isize, uid: u32, icon: isize, tip: &str) -> (r: NotifyIconData)
    ensures
        r.hwnd == hwnd && r.uid == uid && r.icon == icon,
        r.flags == NIF_ICON + NIF_MESSAGE + NIF_TIP,
        r.callback_message == message::WM_TRAYICON,
        r.tip@ == chars::copied(blank(TIP_LEN as nat), chars::utf16(tip@)),
        r.info@ == blank(INFO_LEN as nat),
        r.info_title@ == blank(INFO_TITLE_LEN as nat),
        r.info_flags == 0,
{
    let mut nid = base_nid(hwnd, uid);
    nid.flags = NIF_ICON + NIF_MESSAGE + NIF_TIP;
    nid.callback_message = message::WM_TRAYICON;
    nid.icon = icon;
    chars::copy_wide(&mut nid.tip, tip);
    nid
}

/// Data that shows a notification.
pub fn notify_nid(hwnd: isize, uid: u32, title: &str, body: &str) -> (r: NotifyIconData)
    ensures
        r.hwnd == hwnd && r.uid == uid && r.icon == 0 && r.callback_message == 0,
        r.flags == NIF_INFO,
        r.tip@ == blank(TIP_LEN as nat),
        r.info_title@ == chars::copied(blank(INFO_TITLE_LEN as nat), chars::utf16(title@)),
        r.info@ == chars::copied(blank(INFO_LEN as nat), chars::utf16(body@)),
        r.info_flags == NIIF_INFO,
{
    let mut nid = base_nid(hwnd, uid);
    nid.flags = NIF_INFO;
    chars::copy_wide(&mut nid.info_title, title);
    chars::copy_wide(&mut nid.info, body);
    nid.info_flags = NIIF_INFO;
    nid
}

/// Data that changes the tip.
pub fn tooltip_nid(hwnd: isize, uid: u32, tip: &str) -> (r: NotifyIconData)
    ensures
        r.hwnd == hwnd && r.uid == uid && r.icon == 0 && r.callback_message == 0,
        r.flags == NIF_TIP,
        r.tip@ == chars::copied(blank(TIP_LEN as nat), chars::utf16(tip@)),
        r.info@ == blank(INFO_LEN as nat),
        r.info_title@ == blank(INFO_TITLE_LEN as nat),
        r.info_flags == 0,
{
    let mut nid = base_nid(hwnd, uid);
    nid.flags = NIF_TIP;
    chars::copy_wide(&mut nid.tip, tip);
    nid
}

/// The picture of an icon in the display's byte order; none where the size is not positive or
/// the bytes are too few.
pub fn icon_pixels(w: i32, h: i32, rgba: &[u8]) -> (r: Option<Vec<u8>>)
    requires
        w > 0 && h > 0 ==> w * h * 4 <= i32::MAX,
    ensures
        (r is Some) == (w > 0 && h > 0 && rgba@.len() >= w * h * 4),
        r matches Some(v) ==> v@ == surface::pixel_rows(
            rgba@,
            w as int,
            0,
            w as int,
            0,
            h as int,
            ByteOrder::Bgra,
        ),
{
    if w <= 0 || h <= 0 {
        return None;
    }
    assert(0 <= w * h) by (nonlinear_arith)
        requires
            w > 0,
            h > 0,
    ;
    if rgba.len() < (w * h * 4) as usize {
        return None;
    }
    assert((0 + h) * w * 4 == w * h * 4) by (nonlinear_arith);
    Some(surface::copy_rows(rgba, w as usize, 0, w as usize, 0, h as usize, ByteOrder::Bgra))
}

/// The installed icon. What it was registered with is kept, so that it can be registered again
/// when the taskbar is made anew.
pub struct TrayState {
    pub hwnd: isize,
    pub uid: u32,
    pub icon: isize,
    /// The icon was made here and is destroyed with the state.
    pub owns_icon: bool,
    pub tooltip: String,
}

impl TrayState {
    /// The state of an icon: with its own picture where one could be made, else with the
    /// default one.
    pub fn new(hwnd: isize, own: Option<isize>, default_icon: isize, tooltip: &str) -> (r: TrayState)
        ensures
            r.hwnd == hwnd && r.uid == 1,
            r.icon == (match own {
                Some(i) => i,
                None => default_icon,
            }),
            r.owns_icon == (own is Some),
            r.tooltip@ == tooltip@,
    {
        match own {
            Some(icon) => TrayState {
                hwnd,
                uid: 1,
                icon,
                owns_icon: true,
                tooltip: tooltip.to_string(),
            },
            None => TrayState {
                hwnd,
                uid: 1,
                icon: default_icon,
                owns_icon: false,
                tooltip: tooltip.to_string(),
            },
        }
    }

    /// The data that registers the icon, at first and again.
    pub fn registration(&self) -> (r: NotifyIconData)
        ensures
            r.hwnd == self.hwnd && r.uid == self.uid && r.icon == self.icon,
            r.flags == NIF_ICON + NIF_MESSAGE + NIF_TIP,
            r.callback_message == message::WM_TRAYICON,
            r.tip@ == chars::copied(blank(TIP_LEN as nat), chars::utf16(self.tooltip@)),
            r.info@ == blank(INFO_LEN as nat),
            r.info_title@ == blank(INFO_TITLE_LEN as nat),
            r.info_flags == 0,
    {
        add_nid(self.hwnd, self.uid, self.icon, self.tooltip.as_str())
    }

    /// Keeps a tip that was changed, so that it survives a new taskbar.
    pub fn remember_tooltip(&mut self, tip: String)
        ensures
            *final(self) == (TrayState { tooltip: tip, ..*old(self) }),
    {
        self.tooltip = tip;
    }
}

/// Registering an icon again: `change` changes an icon that is still there, and `add` adds it
/// where that failed. Says whether the icon is there.
pub fn readd<M: FnOnce() -> bool, A: FnOnce() -> bool>(change: M, add_icon: A) -> (r: bool)
    requires
        call_requires(change, ()),
        call_requires(add_icon, ()),
    ensures
        (call_ensures(change, (), true) && r) || (call_ensures(change, (), false) && call_ensures(
            add_icon,
            (),
            r,
        )),
{
    if change() {
        return true;
    }
    add_icon()
}

/// A line of the native menu.
pub struct MenuLine {
    pub flags: u32,
    /// The command number: one more than the item's place. Zero stands for no choice.
    pub id: usize,
    /// The label with a zero behind it; a separator has none.
    pub label: Option<Vec<u16>>,
}

impl MenuLine {
    /// The line of the menu entry at this place.
    pub open spec fn shows(self, entry: MenuEntryView, place: int) -> bool {
        match entry {
            MenuEntryView::Separator => self.flags == MF_SEPARATOR && self.id == 0 && self.label
                is None,
            MenuEntryView::Item { label, checked, usable } => {
                &&& self.flags == (if checked { MF_CHECKED as int } else { 0 }) + (if usable {
                    0
                } else {
                    MF_GRAYED as int
                })
                &&& self.id == place + 1
                &&& self.label matches Some(l) && l@ == chars::utf16(label).push(0)
            },
        }
    }
}

/// The native menu of the entries.
pub fn menu_lines(entries: &Vec<MenuEntry>) -> (r: Vec<MenuLine>)
    ensures
        r@.len() == entries@.len(),
        forall|i: int| 0 <= i < r@.len() ==> (#[trigger] r@[i]).shows(entries@[i]@, i),
{
    let mut out: Vec<MenuLine> = Vec::new();
    let n: usize = entries.len();
    let mut i: usize = 0;
    while i < n
        invariant
            i <= n,
            n == entries@.len(),
            out@.len() == i,
            forall|j: int| 0 <= j < i ==> (#[trigger] out@[j]).shows(entries@[j]@, j),
        decreases n - i,
    {
        match &entries[i] {
            MenuEntry::Separator => {
                out.push(MenuLine { flags: MF_SEPARATOR, id: 0, label: None });
            },
            MenuEntry::Item { label, checked, usable } => {
                let mut flags: u32 = 0;
                if *checked {
                    flags = flags + MF_CHECKED;
                }
                if !*usable {
                    flags = flags + MF_GRAYED;
                }
                out.push(
                    MenuLine { flags, id: i + 1, label: Some(chars::wide_nul(label.as_str())) },
                );
            },
        }
        i += 1;
    }
    out
}

/// Runs the item with this command number; zero, and a number that no item with a callback has,
/// run nothing.
pub fn run_item<C, F: FnMut(&mut TrayCtx<C>)>(
    t: &mut Tray<F>,
    id: usize,
    queue: &mut CallbackWindows<C>,
) -> (r: Vec<TrayAction>)
    requires
        0 < id <= old(t).items@.len() && old(t).items@[id - 1].kind is Action ==> tray::runnable::<C, F>(
            old(t).items@[id - 1].kind->cb,
        ),
    ensures
        ({
            let active = 0 < id <= old(t).items@.len() && old(t).items@[id - 1].kind is Action;
            &&& !active ==> {
                &&& r@.len() == 0
                &&& final(queue).queue@ == old(queue).queue@
            }
            &&& active ==> exists|c: &mut TrayCtx<C>| #[trigger]
                call_ensures(old(t).items@[id - 1].kind->cb, (c,), ()) && c.fresh()
                    && tray::action_views(r@) == final(c).actions() && final(queue).queue@
                    == old(queue).queue@ + final(c).windows()
        }),
        final(t).items@ == old(t).items@,
        *final(t) == (Tray { items: final(t).items, ..*old(t) }),
{
    if id == 0 {
        return Vec::new();
    }
    t.run_index(id - 1, queue)
}

/// The icon is clicked when the left button is let go of over it, twice when it is pressed again
/// soon, and asked for its menu when the right one is; nothing else happens to it.
pub proof fn icon_messages_are_told_apart(event: u32)
    ensures
        event == 0x202 <==> event_of(event) == (TrayEvent::Click { double: false }),
        event == 0x203 <==> event_of(event) == (TrayEvent::Click { double: true }),
        event == 0x205 <==> event_of(event) is RightClick,
        event != 0x202 && event != 0x203 && event != 0x205 <==> event_of(event) is Other,
{
}

/// A tip or a message that fits is shown as it is, and one that does not is cut off; either ends
/// in a zero.
pub proof fn texts_of_an_icon_end(s: Seq<char>, n: nat)
    requires
        n > 0,
    ensures
        blank(n).len() == n,
        chars::copied(blank(n), chars::utf16(s)).len() == n,
        chars::copied(blank(n), chars::utf16(s))[n - 1] == 0,
        chars::utf16(s).len() < n ==> chars::decoded(
            chars::copied(blank(n), chars::utf16(s)).take(chars::utf16(s).len() as int),
        ) == s,
{
    let units = chars::utf16(s);
    chars::copied_text_is_terminated(blank(n), units);
    chars::utf16_reads_back(s);
    chars::copied_text_is_cut_off(blank(n), units, n - 1);
}

/// The command number of a line leads back to its item, and a separator has none; a line is ticked
/// and greyed by bits of its own.
pub proof fn command_numbers_lead_back(line: MenuLine, entry: MenuEntryView, place: int)
    requires
        line.shows(entry, place),
        0 <= place < usize::MAX,
    ensures
        entry is Separator <==> line.id == 0,
        entry is Item ==> line.id - 1 == place,
        entry is Separator <==> line.label is None,
        entry matches MenuEntryView::Item { label, checked, usable } ==> {
            &&& (line.flags / 8 % 2 == 1) == checked
            &&& (line.flags % 2 == 0) == usable
            &&& line.flags < 0x800
            &&& chars::decoded(line.label.unwrap()@.drop_last()) == label
            &&& line.label.unwrap()@.last() == 0
        },
        entry is Separator ==> line.flags == 0x800,
{
    if let MenuEntryView::Item { label, checked, usable } = entry {
        chars::utf16_reads_back(label);
        assert(line.label.unwrap()@.drop_last() =~= chars::utf16(label));
    }
}

} // verus!
