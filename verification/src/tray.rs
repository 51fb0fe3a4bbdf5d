//! The tray icon as a declaration: what it shows, what its menu holds, and what its callbacks
//! ask for. Nothing here touches the system; callbacks record intents that the host carries
//! out once they have returned.

use crate::event::{CallbackWindows, WindowOp, WindowRequest};
use crate::signal::{Signal, Signals, TextContent};
use vstd::prelude::*;

verus! {

/// A change to the tray icon that the application asks for while it runs.
#[derive(Debug, PartialEq, Eq)]
pub enum TrayOp {
    SetTooltip(String),
    Notify { title: String, body: String },
}

/// A tray change with its texts.
pub enum TrayOpView {
    SetTooltip(Seq<char>),
    Notify { title: Seq<char>, body: Seq<char> },
}

impl View for TrayOp {
    type V = TrayOpView;

    open spec fn view(&self) -> TrayOpView {
        match self {
            TrayOp::SetTooltip(s) => TrayOpView::SetTooltip(s@),
            TrayOp::Notify { title, body } => TrayOpView::Notify { title: title@, body: body@ },
        }
    }
}

impl Clone for TrayOp {
    fn clone(&self) -> (r: TrayOp)
        ensures
            r@ == self@,
    {
        match self {
            TrayOp::SetTooltip(s) => TrayOp::SetTooltip(s.clone()),
            TrayOp::Notify { title, body } => TrayOp::Notify {
                title: title.clone(),
                body: body.clone(),
            },
        }
    }
}

/// The views of a sequence of tray changes.
pub open spec fn op_views(s: Seq<TrayOp>) -> Seq<TrayOpView> {
    Seq::new(s.len(), |i: int| s[i]@)
}

/// The queues of tray changes of a thread: the host's, and those that no host drains. The host
/// takes its changes after the events of the moment are dispatched; each change also asks for a
/// frame, since no event may follow that would let the host look.
pub struct TrayQueues {
    host: Vec<TrayOp>,
    apart: Vec<Vec<TrayOp>>,
    repaint: bool,
}

impl TrayQueues {
    /// The changes that wait for the host, in call order.
    pub closed spec fn hosted(self) -> Seq<TrayOpView> {
        op_views(self.host@)
    }

    /// The changes of each queue that no host drains, in call order.
    pub closed spec fn detached(self) -> Seq<Seq<TrayOpView>> {
        Seq::new(self.apart@.len(), |i: int| op_views(self.apart@[i]@))
    }

    /// A frame has been asked for.
    pub closed spec fn wants_frame(self) -> bool {
        self.repaint
    }

    /// The queue that a handle names is here.
    pub open spec fn knows(self, h: TrayHandle) -> bool {
        h.apart matches Some(i) ==> i < self.detached().len()
    }

    /// The queue that a handle names.
    pub open spec fn pending(self, h: TrayHandle) -> Seq<TrayOpView> {
        match h.apart {
            None => self.hosted(),
            Some(i) => self.detached()[i as int],
        }
    }

    /// After a change through `h`: it is last in the queue that `h` names, the other queues are as
    /// they were, and a frame is asked for.
    pub open spec fn changed(self, after: TrayQueues, h: TrayHandle, op: TrayOpView) -> bool {
        &&& after.wants_frame()
        &&& match h.apart {
            None => after.hosted() == self.hosted().push(op) && after.detached()
                == self.detached(),
            Some(i) => after.hosted() == self.hosted() && after.detached()
                == self.detached().update(i as int, self.detached()[i as int].push(op)),
        }
    }

    pub fn new() -> (r: TrayQueues)
        ensures
            r.hosted() == Seq::<TrayOpView>::empty(),
            r.detached() == Seq::<Seq<TrayOpView>>::empty(),
            !r.wants_frame(),
    {
        let r = TrayQueues { host: Vec::new(), apart: Vec::new(), repaint: false };
        assert(r.hosted() =~= Seq::empty());
        assert(r.detached() =~= Seq::empty());
        r
    }

    fn push(&mut self, h: TrayHandle, op: TrayOp)
        requires
            old(self).knows(h),
        ensures
            old(self).changed(*final(self), h, op@),
    {
        self.repaint = true;
        match h.apart {
            None => {
                self.host.push(op);
                assert(self.hosted() =~= old(self).hosted().push(op@));
            },
            Some(i) => {
                self.apart[i].push(op);
                proof {
                    let before = old(self).detached();
                    assert(op_views(self.apart@[i as int]@) =~= before[i as int].push(op@));
                    assert(self.detached() =~= before.update(i as int, before[i as int].push(op@)));
                }
            },
        }
    }

    /// Whether a frame was asked for; the question is answered once.
    pub fn take_frame_request(&mut self) -> (r: bool)
        ensures
            r == old(self).wants_frame(),
            !final(self).wants_frame(),
            final(self).hosted() == old(self).hosted(),
            final(self).detached() == old(self).detached(),
    {
        let r = self.repaint;
        self.repaint = false;
        r
    }
}

/// Changes the tray icon after it was built. A handle names a queue, and so do its copies: all
/// handles of the host name the host's one queue.
#[derive(Clone, Copy, Debug, PartialEq, Eq, Structural)]
pub struct TrayHandle {
    /// The queue that no host drains, by its place; without one, the queue is the host's.
    pub apart: Option<usize>,
}

impl Default for TrayHandle {
    fn default() -> (r: TrayHandle)
        ensures
            r.apart is None,
    {
        TrayHandle::new()
    }
}

impl TrayHandle {
    /// A handle on the queue that the host drains.
    pub fn new() -> (r: TrayHandle)
        ensures
            r.apart is None,
    {
        TrayHandle { apart: None }
    }

    /// A handle on a new queue that no host drains, for tests of an application's own state.
    pub fn detached(q: &mut TrayQueues) -> (r: TrayHandle)
        ensures
            r.apart matches Some(i) && i == old(q).detached().len(),
            final(q).knows(r),
            final(q).detached() == old(q).detached().push(Seq::empty()),
            final(q).hosted() == old(q).hosted(),
            final(q).wants_frame() == old(q).wants_frame(),
    {
        let i: usize = q.apart.len();
        let queue: Vec<TrayOp> = Vec::new();
        assert(op_views(queue@) =~= Seq::empty());
        q.apart.push(queue);
        assert(q.detached() =~= old(q).detached().push(Seq::empty()));
        TrayHandle { apart: Some(i) }
    }

    /// Replaces the tooltip.
    pub fn set_tooltip(&self, q: &mut TrayQueues, s: &str)
        requires
            old(q).knows(*self),
        ensures
            old(q).changed(*final(q), *self, TrayOpView::SetTooltip(s@)),
    {
        q.push(*self, TrayOp::SetTooltip(s.to_owned()));
    }

    /// Shows a notification.
    pub fn notify(&self, q: &mut TrayQueues, title: &str, body: &str)
        requires
            old(q).knows(*self),
        ensures
            old(q).changed(*final(q), *self, TrayOpView::Notify { title: title@, body: body@ }),
    {
        q.push(*self, TrayOp::Notify { title: title.to_owned(), body: body.to_owned() });
    }

    /// The queued changes, in call order. They stay queued.
    pub fn pending_ops(&self, q: &TrayQueues) -> (r: Vec<TrayOp>)
        requires
            q.knows(*self),
        ensures
            op_views(r@) == q.pending(*self),
    {
        match self.apart {
            None => copied(&q.host),
            Some(i) => copied(&q.apart[i]),
        }
    }
}

/// The queue of a new detached handle is its own: it starts empty, no handle that was there before
/// names it, and what they name is as it was.
pub proof fn a_detached_handle_is_alone(
    q: TrayQueues,
    after: TrayQueues,
    h: TrayHandle,
    other: TrayHandle,
)
    requires
        q.knows(other),
        h.apart matches Some(i) && i == q.detached().len(),
        after.detached() == q.detached().push(Seq::empty()),
        after.hosted() == q.hosted(),
    ensures
        h != other,
        h.apart is Some,
        after.knows(h) && after.knows(other),
        after.pending(h) == Seq::<TrayOpView>::empty(),
        after.pending(other) == q.pending(other),
{
}

/// A change shows through every handle that names its queue, and through no other.
pub proof fn handles_share_their_queue(
    q: TrayQueues,
    after: TrayQueues,
    h: TrayHandle,
    other: TrayHandle,
    op: TrayOpView,
)
    requires
        q.knows(h),
        q.knows(other),
        q.changed(after, h, op),
    ensures
        after.knows(other),
        h.apart is Some ==> after.hosted() == q.hosted(),
        after.pending(other) == (if h == other {
            q.pending(other).push(op)
        } else {
            q.pending(other)
        }),
{
}

fn copied(ops: &Vec<TrayOp>) -> (r: Vec<TrayOp>)
    ensures
        op_views(r@) == op_views(ops@),
{
    let mut out: Vec<TrayOp> = Vec::new();
    let mut i: usize = 0;
    while i < ops.len()
        invariant
            i <= ops@.len(),
            op_views(out@) == op_views(ops@).take(i as int),
        decreases ops@.len() - i,
    {
        let op = ops[i].clone();
        let ghost before = out@;
        out.push(op);
        assert(op_views(out@) =~= op_views(before).push(op@));
        assert(op_views(ops@).take(i + 1) =~= op_views(ops@).take(i as int).push(
            op_views(ops@)[i as int],
        ));
        i += 1;
    }
    assert(op_views(ops@).take(i as int) =~= op_views(ops@));
    out
}

/// Takes the changes that wait for the host, whichever of its handles they came through, leaving
/// none. The queues that no host drains stay as they are.
pub fn take_tray_ops(q: &mut TrayQueues) -> (r: Vec<TrayOp>)
    ensures
        op_views(r@) == old(q).hosted(),
        final(q).hosted() == Seq::<TrayOpView>::empty(),
        final(q).detached() == old(q).detached(),
        final(q).wants_frame() == old(q).wants_frame(),
{
    let mut out: Vec<TrayOp> = Vec::new();
    core::mem::swap(&mut out, &mut q.host);
    assert(q.hosted() =~= Seq::empty());
    out
}

/// What a tray callback asked for. A new window's description travels in a queue of its own;
/// here stands the mark of its place.
#[derive(Debug, PartialEq, Eq)]
pub enum TrayAction {
    /// Show the window and bring it to the front.
    Show,
    Hide,
    /// Show or hide, by what the window really is at that moment.
    Toggle,
    /// Leave the application, whatever closing the window would do.
    Quit,
    Notify { title: String, body: String },
    /// Open the oldest window of the queue.
    OpenWindow,
    /// Close the window with this key, where there is one.
    CloseWindow(String),
}

/// A tray action with its texts.
pub enum TrayActionView {
    Show,
    Hide,
    Toggle,
    Quit,
    Notify { title: Seq<char>, body: Seq<char> },
    OpenWindow,
    CloseWindow(Seq<char>),
}

impl View for TrayAction {
    type V = TrayActionView;

    open spec fn view(&self) -> TrayActionView {
        match self {
            TrayAction::Show => TrayActionView::Show,
            TrayAction::Hide => TrayActionView::Hide,
            TrayAction::Toggle => TrayActionView::Toggle,
            TrayAction::Quit => TrayActionView::Quit,
            TrayAction::Notify { title, body } => TrayActionView::Notify {
                title: title@,
                body: body@,
            },
            TrayAction::OpenWindow => TrayActionView::OpenWindow,
            TrayAction::CloseWindow(key) => TrayActionView::CloseWindow(key@),
        }
    }
}

/// The views of a sequence of actions.
pub open spec fn action_views(s: Seq<TrayAction>) -> Seq<TrayActionView> {
    Seq::new(s.len(), |i: int| s[i]@)
}

/// How many windows a sequence of actions opens.
pub open spec fn open_marks(s: Seq<TrayActionView>) -> nat
    decreases s.len(),
{
    if s.len() == 0 {
        0
    } else {
        open_marks(s.drop_last()) + if s.last() is OpenWindow { 1nat } else { 0nat }
    }
}

/// An intent as a context records it.
enum Intent<C> {
    Show,
    Hide,
    Toggle,
    Quit,
    Notify { title: String, body: String },
    Open(WindowRequest<C>),
    Close(String),
}

impl<C> Intent<C> {
    spec fn action(self) -> TrayActionView {
        match self {
            Intent::Show => TrayActionView::Show,
            Intent::Hide => TrayActionView::Hide,
            Intent::Toggle => TrayActionView::Toggle,
            Intent::Quit => TrayActionView::Quit,
            Intent::Notify { title, body } => TrayActionView::Notify { title: title@, body: body@ },
            Intent::Open(_) => TrayActionView::OpenWindow,
            Intent::Close(key) => TrayActionView::CloseWindow(key@),
        }
    }
}

spec fn actions_of<C>(s: Seq<Intent<C>>) -> Seq<TrayActionView> {
    Seq::new(s.len(), |i: int| s[i].action())
}

spec fn windows_of<C>(s: Seq<Intent<C>>) -> Seq<WindowRequest<C>>
    decreases s.len(),
{
    if s.len() == 0 {
        Seq::empty()
    } else {
        match s.last() {
            Intent::Open(w) => windows_of(s.drop_last()).push(w),
            _ => windows_of(s.drop_last()),
        }
    }
}

proof fn one_mark_per_window<C>(s: Seq<Intent<C>>)
    ensures
        open_marks(actions_of(s)) == windows_of(s).len(),
    decreases s.len(),
{
    if s.len() > 0 {
        one_mark_per_window(s.drop_last());
        assert(actions_of(s).drop_last() =~= actions_of(s.drop_last()));
    }
}

/// What a tray callback works on. Its methods record intents and do nothing else; the order of
/// the calls is kept. `C` is what windows are filled with.
pub struct TrayCtx<C> {
    intents: Vec<Intent<C>>,
}

impl<C> TrayCtx<C> {
    /// The recorded actions, in call order.
    pub closed spec fn actions(self) -> Seq<TrayActionView> {
        actions_of(self.intents@)
    }

    /// The windows asked for, in call order.
    pub closed spec fn windows(self) -> Seq<WindowRequest<C>> {
        windows_of(self.intents@)
    }

    /// A context in which nothing is recorded.
    pub open spec fn fresh(self) -> bool {
        self.actions() == Seq::<TrayActionView>::empty() && self.windows() == Seq::<
            WindowRequest<C>,
        >::empty()
    }

    pub fn new() -> (r: TrayCtx<C>)
        ensures
            r.fresh(),
    {
        let r = TrayCtx { intents: Vec::new() };
        assert(r.actions() =~= Seq::empty());
        r
    }

    fn record(&mut self, intent: Intent<C>)
        ensures
            final(self).actions() == old(self).actions().push(intent.action()),
            final(self).windows() == (match intent {
                Intent::Open(w) => old(self).windows().push(w),
                _ => old(self).windows(),
            }),
    {
        self.intents.push(intent);
        proof {
            assert(self.intents@.drop_last() =~= old(self).intents@);
            assert(self.actions() =~= old(self).actions().push(intent.action()));
        }
    }

    /// Shows the window and brings it to the front.
    pub fn show_window(&mut self)
        ensures
            final(self).actions() == old(self).actions().push(TrayActionView::Show),
            final(self).windows() == old(self).windows(),
    {
        self.record(Intent::Show);
    }

    /// Hides the window.
    pub fn hide_window(&mut self)
        ensures
            final(self).actions() == old(self).actions().push(TrayActionView::Hide),
            final(self).windows() == old(self).windows(),
    {
        self.record(Intent::Hide);
    }

    /// Shows the window if it is hidden, else hides it.
    pub fn toggle_window(&mut self)
        ensures
            final(self).actions() == old(self).actions().push(TrayActionView::Toggle),
            final(self).windows() == old(self).windows(),
    {
        self.record(Intent::Toggle);
    }

    /// Leaves the application.
    pub fn quit(&mut self)
        ensures
            final(self).actions() == old(self).actions().push(TrayActionView::Quit),
            final(self).windows() == old(self).windows(),
    {
        self.record(Intent::Quit);
    }

    /// Opens a window: the request queues up, and its place among the actions is marked.
    pub fn open_window(&mut self, req: WindowRequest<C>)
        ensures
            final(self).actions() == old(self).actions().push(TrayActionView::OpenWindow),
            final(self).windows() == old(self).windows().push(req),
    {
        self.record(Intent::Open(req));
    }

    /// Closes the window with this key, where there is one.
    pub fn close_window(&mut self, key: &str)
        ensures
            final(self).actions() == old(self).actions().push(TrayActionView::CloseWindow(key@)),
            final(self).windows() == old(self).windows(),
    {
        self.record(Intent::Close(key.to_owned()));
    }

    /// Shows a notification.
    pub fn notify(&mut self, title: &str, body: &str)
        ensures
            final(self).actions() == old(self).actions().push(
                TrayActionView::Notify { title: title@, body: body@ },
            ),
            final(self).windows() == old(self).windows(),
    {
        self.record(Intent::Notify { title: title.to_owned(), body: body.to_owned() });
    }

    /// Takes the recorded actions; the windows asked for join the queue.
    pub(crate) fn take_actions(self, queue: &mut CallbackWindows<C>) -> (r: Vec<TrayAction>)
        ensures
            action_views(r@) == self.actions(),
            final(queue).queue@ == old(queue).queue@ + self.windows(),
            open_marks(self.actions()) == self.windows().len(),
    {
        let ghost all = self.intents@;
        let mut out: Vec<TrayAction> = Vec::new();
        assert(queue.queue@ =~= old(queue).queue@ + windows_of(all.take(0)));
        for intent in it: self.intents.into_iter()
            invariant
                it.seq() == all,
                action_views(out@) == actions_of(all.take(it.index() as int)),
                queue.queue@ == old(queue).queue@ + windows_of(all.take(it.index() as int)),
        {
            let ghost i = it.index() as int;
            let ghost before = out@;
            assert(all.take(i + 1).drop_last() =~= all.take(i));
            let action = match intent {
                Intent::Show => TrayAction::Show,
                Intent::Hide => TrayAction::Hide,
                Intent::Toggle => TrayAction::Toggle,
                Intent::Quit => TrayAction::Quit,
                Intent::Notify { title, body } => TrayAction::Notify { title, body },
                Intent::Open(w) => {
                    queue.queue.push(w);
                    assert(queue.queue@ =~= old(queue).queue@ + windows_of(all.take(i)).push(w));
                    TrayAction::OpenWindow
                },
                Intent::Close(key) => TrayAction::CloseWindow(key),
            };
            out.push(action);
            assert(action_views(out@) =~= action_views(before).push(action@));
            assert(actions_of(all.take(i + 1)) =~= actions_of(all.take(i)).push(all[i].action()));
        }
        proof {
            assert(all.take(all.len() as int) =~= all);
            one_mark_per_window(all);
        }
        out
    }
}

/// The callback can be run on a fresh context.
pub open spec fn runnable<C, F: FnMut(&mut TrayCtx<C>)>(f: F) -> bool {
    forall|c: &mut TrayCtx<C>| c.fresh() ==> #[trigger] call_requires(f, (c,))
}

/// Runs a callback on a fresh context and hands out the actions that it recorded; the windows
/// it asked for join the queue, one for each mark among the actions. Without a callback there
/// is nothing to do. Running a callback does not replace it.
pub fn invoke<C, F: FnMut(&mut TrayCtx<C>)>(
    cb: Option<&mut F>,
    queue: &mut CallbackWindows<C>,
) -> (r: Vec<TrayAction>)
    requires
        cb matches Some(f) ==> runnable::<C, F>(*f),
    ensures
        cb is None ==> r@.len() == 0 && final(queue).queue@ == old(queue).queue@,
        cb matches Some(f) ==> exists|c: &mut TrayCtx<C>| #[trigger]
            call_ensures(*f, (c,), ()) && c.fresh() && action_views(r@) == final(c).actions()
                && final(queue).queue@ == old(queue).queue@ + final(c).windows(),
        cb matches Some(f) ==> *final(f) == *f,
        open_marks(action_views(r@)) + old(queue).queue@.len() == final(queue).queue@.len(),
{
    let mut ctx = TrayCtx::<C>::new();
    if let Some(cb) = cb {
        cb(&mut ctx);
    }
    let out = ctx.take_actions(queue);
    out
}

/// What a menu item is.
pub enum ItemKind<F> {
    Action {
        /// Looked up when the menu opens, so that it follows the language.
        label: TextContent,
        /// A tick by this signal; without one the item never has a tick.
        checked: Option<Signal>,
        /// Greyed out while this signal is false; without one the item is always usable.
        enabled: Option<Signal>,
        cb: F,
    },
    Separator,
}

/// An item of the tray menu.
pub struct TrayMenuItem<F> {
    pub kind: ItemKind<F>,
}

impl<F> TrayMenuItem<F> {
    /// An ordinary item.
    pub fn item(label: TextContent, cb: F) -> (r: TrayMenuItem<F>)
        ensures
            r.kind == (ItemKind::Action { label, checked: None, enabled: None, cb }),
    {
        TrayMenuItem { kind: ItemKind::Action { label, checked: None, enabled: None, cb } }
    }

    /// An item with a tick that follows a signal. The callback flips the signal itself.
    pub fn check(label: TextContent, checked: Signal, cb: F) -> (r: TrayMenuItem<F>)
        ensures
            r.kind == (ItemKind::Action { label, checked: Some(checked), enabled: None, cb }),
    {
        TrayMenuItem { kind: ItemKind::Action { label, checked: Some(checked), enabled: None, cb } }
    }

    /// Binds the usable state to a signal. A separator has none and stays as it is.
    pub fn enabled(self, flag: Signal) -> (r: TrayMenuItem<F>)
        ensures
            r.kind == (match self.kind {
                ItemKind::Action { label, checked, enabled: _, cb } => ItemKind::Action {
                    label,
                    checked,
                    enabled: Some(flag),
                    cb,
                },
                ItemKind::Separator => ItemKind::Separator,
            }),
    {
        match self.kind {
            ItemKind::Action { label, checked, enabled: _, cb } => TrayMenuItem {
                kind: ItemKind::Action { label, checked, enabled: Some(flag), cb },
            },
            ItemKind::Separator => TrayMenuItem { kind: ItemKind::Separator },
        }
    }

    pub fn separator() -> (r: TrayMenuItem<F>)
        ensures
            r.kind == ItemKind::<F>::Separator,
    {
        TrayMenuItem { kind: ItemKind::Separator }
    }

    /// The item's callback; a separator has none.
    pub fn callback(&mut self) -> (r: Option<&mut F>)
        ensures
            match old(self).kind {
                ItemKind::Action { label, checked, enabled, cb } => {
                    &&& r matches Some(f) && *f == cb
                    &&& final(self).kind == (ItemKind::Action {
                        label,
                        checked,
                        enabled,
                        cb: *final(r.unwrap()),
                    })
                },
                ItemKind::Separator => r is None && *final(self) == *old(self),
            },
    {
        match &mut self.kind {
            ItemKind::Action { label: _, checked: _, enabled: _, cb } => Some(cb),
            ItemKind::Separator => None,
        }
    }
}

/// The tray icon.
pub struct Tray<F> {
    pub tooltip: String,
    /// Width, height and straight RGBA bytes; without one the system's own icon is used.
    pub icon: Option<(u32, u32, Vec<u8>)>,
    pub on_left_click: Option<F>,
    pub on_double_click: Option<F>,
    pub items: Vec<TrayMenuItem<F>>,
}

impl<F> Tray<F> {
    pub fn new() -> (r: Tray<F>)
        ensures
            r.tooltip@ == Seq::<char>::empty(),
            r.icon is None,
            r.on_left_click is None,
            r.on_double_click is None,
            r.items@ == Seq::<TrayMenuItem<F>>::empty(),
    {
        Tray {
            tooltip: String::new(),
            icon: None,
            on_left_click: None,
            on_double_click: None,
            items: Vec::new(),
        }
    }

    pub fn tooltip(self, s: &str) -> (r: Tray<F>)
        ensures
            r.tooltip@ == s@,
            r == (Tray { tooltip: r.tooltip, ..self }),
    {
        Tray { tooltip: s.to_owned(), ..self }
    }

    /// The icon from straight RGBA bytes.
    pub fn icon_rgba(self, w: u32, h: u32, rgba: &[u8]) -> (r: Tray<F>)
        ensures
            r.icon matches Some(i) && i.0 == w && i.1 == h && i.2@ == rgba@,
            r == (Tray { icon: r.icon, ..self }),
    {
        Tray { icon: Some((w, h, vstd::slice::slice_to_vec(rgba))), ..self }
    }

    pub fn on_left_click(self, f: F) -> (r: Tray<F>)
        ensures
            r == (Tray { on_left_click: Some(f), ..self }),
    {
        Tray { on_left_click: Some(f), ..self }
    }

    pub fn on_double_click(self, f: F) -> (r: Tray<F>)
        ensures
            r == (Tray { on_double_click: Some(f), ..self }),
    {
        Tray { on_double_click: Some(f), ..self }
    }

    pub fn menu(self, items: Vec<TrayMenuItem<F>>) -> (r: Tray<F>)
        ensures
            r == (Tray { items, ..self }),
    {
        Tray { items, ..self }
    }

    /// The callback of the item at an index; a separator, or an index past the end, has none.
    pub fn item_callback(&mut self, idx: usize) -> (r: Option<&mut F>)
        ensures
            r is Some <==> idx < old(self).items@.len() && old(self).items@[idx as int].kind
                is Action,
            r matches Some(f) ==> *f == old(self).items@[idx as int].kind->cb,
            r is None ==> final(self).items@ == old(self).items@,
            r is Some ==> final(self).items@ == old(self).items@.update(
                idx as int,
                TrayMenuItem {
                    kind: (ItemKind::Action {
                        label: old(self).items@[idx as int].kind->label,
                        checked: old(self).items@[idx as int].kind->checked,
                        enabled: old(self).items@[idx as int].kind->enabled,
                        cb: *final(r.unwrap()),
                    }),
                },
            ),
            *final(self) == (Tray { items: final(self).items, ..*old(self) }),
    {
        if idx < self.items.len() {
            self.items[idx].callback()
        } else {
            None
        }
    }
}

/// A line of the menu as it opens.
pub enum MenuEntry {
    Separator,
    Item {
        label: String,
        checked: bool,
        usable: bool,
    },
}

/// A line of the menu with its text.
pub enum MenuEntryView {
    Separator,
    Item { label: Seq<char>, checked: bool, usable: bool },
}

impl View for MenuEntry {
    type V = MenuEntryView;

    open spec fn view(&self) -> MenuEntryView {
        match self {
            MenuEntry::Separator => MenuEntryView::Separator,
            MenuEntry::Item { label, checked, usable } => MenuEntryView::Item {
                label: label@,
                checked: *checked,
                usable: *usable,
            },
        }
    }
}

/// A signal that is bound has its place among the current values.
pub open spec fn bound(s: Option<Signal>, now: Signals) -> bool {
    s matches Some(x) ==> x.slot < now.flags@.len()
}

/// The value of a signal that may not be bound.
pub open spec fn value_or(s: Option<Signal>, now: Signals, default: bool) -> bool {
    match s {
        Some(x) => now.flags@[x.slot as int],
        None => default,
    }
}

impl<F> TrayMenuItem<F> {
    /// What the item refers to exists.
    pub open spec fn valid(self, now: Signals) -> bool {
        self.kind matches ItemKind::Action { label, checked, enabled, cb: _ } ==> label.valid(now)
            && bound(checked, now) && bound(enabled, now)
    }

    /// The line that the item makes at this moment.
    pub open spec fn entry(self, now: Signals) -> MenuEntryView {
        match self.kind {
            ItemKind::Action { label, checked, enabled, cb: _ } => MenuEntryView::Item {
                label: label.shown(now),
                checked: value_or(checked, now, false),
                usable: value_or(enabled, now, true),
            },
            ItemKind::Separator => MenuEntryView::Separator,
        }
    }
}

fn read_or(s: &Option<Signal>, now: &Signals, default: bool) -> (r: bool)
    requires
        bound(*s, *now),
    ensures
        r == value_or(*s, *now, default),
{
    match s {
        Some(x) => now.get(*x),
        None => default,
    }
}

impl<F> Tray<F> {
    /// What the items refer to exists.
    pub open spec fn valid(self, now: Signals) -> bool {
        forall|i: int| 0 <= i < self.items@.len() ==> (#[trigger] self.items@[i]).valid(now)
    }

    /// The menu as it opens now: one line per item, in order, with labels, ticks and usable
    /// states read at this moment.
    pub fn build_menu(&self, now: &Signals) -> (r: Vec<MenuEntry>)
        requires
            self.valid(*now),
        ensures
            r@.len() == self.items@.len(),
            forall|i: int|
                0 <= i < r@.len() ==> (#[trigger] r@[i])@ == self.items@[i].entry(*now),
    {
        let mut out: Vec<MenuEntry> = Vec::new();
        let mut i: usize = 0;
        while i < self.items.len()
            invariant
                i <= self.items@.len(),
                out@.len() == i,
                self.valid(*now),
                forall|j: int|
                    0 <= j < i ==> (#[trigger] out@[j])@ == self.items@[j].entry(*now),
            decreases self.items@.len() - i,
        {
            assert(self.items@[i as int].valid(*now));
            match &self.items[i].kind {
                ItemKind::Separator => {
                    out.push(MenuEntry::Separator);
                },
                ItemKind::Action { label, checked, enabled, cb: _ } => {
                    let text = label.resolve(now);
                    let tick = read_or(checked, now, false);
                    let usable = read_or(enabled, now, true);
                    out.push(MenuEntry::Item { label: text, checked: tick, usable });
                },
            }
            i += 1;
        }
        out
    }
}

impl<F> Tray<F> {
    /// Runs the click callback: the one for a double click, or the one for a single click. A
    /// double click without its callback does not fall back on the other.
    pub fn run_click<C>(&mut self, double: bool, queue: &mut CallbackWindows<C>) -> (r: Vec<
        TrayAction,
    >) where F: FnMut(&mut TrayCtx<C>)
        requires
            double ==> (old(self).on_double_click matches Some(f) ==> runnable::<C, F>(f)),
            !double ==> (old(self).on_left_click matches Some(f) ==> runnable::<C, F>(f)),
        ensures
            double ==> match old(self).on_double_click {
                None => r@.len() == 0 && final(queue).queue@ == old(queue).queue@,
                Some(f) => exists|c: &mut TrayCtx<C>| #[trigger]
                    call_ensures(f, (c,), ()) && c.fresh() && action_views(r@)
                        == final(c).actions() && final(queue).queue@ == old(queue).queue@
                        + final(c).windows(),
            },
            !double ==> match old(self).on_left_click {
                None => r@.len() == 0 && final(queue).queue@ == old(queue).queue@,
                Some(f) => exists|c: &mut TrayCtx<C>| #[trigger]
                    call_ensures(f, (c,), ()) && c.fresh() && action_views(r@)
                        == final(c).actions() && final(queue).queue@ == old(queue).queue@
                        + final(c).windows(),
            },
            *final(self) == *old(self),
            open_marks(action_views(r@)) + old(queue).queue@.len() == final(queue).queue@.len(),
    {
        if double {
            invoke(self.on_double_click.as_mut(), queue)
        } else {
            invoke(self.on_left_click.as_mut(), queue)
        }
    }

    /// Runs the callback of the item at an index; a separator, or an index past the end, does
    /// nothing.
    pub fn run_index<C>(&mut self, idx: usize, queue: &mut CallbackWindows<C>) -> (r: Vec<
        TrayAction,
    >) where F: FnMut(&mut TrayCtx<C>)
        requires
            idx < old(self).items@.len() && old(self).items@[idx as int].kind is Action ==> runnable::<C, F>(
                old(self).items@[idx as int].kind->cb,
            ),
        ensures
            ({
                let active = idx < old(self).items@.len() && old(self).items@[idx as int].kind
                    is Action;
                &&& !active ==> {
                    &&& r@.len() == 0
                    &&& final(queue).queue@ == old(queue).queue@
                }
                &&& active ==> exists|c: &mut TrayCtx<C>| #[trigger]
                    call_ensures(old(self).items@[idx as int].kind->cb, (c,), ()) && c.fresh()
                        && action_views(r@) == final(c).actions() && final(queue).queue@ == old(
                        queue,
                    ).queue@ + final(c).windows()
            }),
            final(self).items@ == old(self).items@,
            *final(self) == (Tray { items: final(self).items, ..*old(self) }),
            open_marks(action_views(r@)) + old(queue).queue@.len() == final(queue).queue@.len(),
    {
        invoke(self.item_callback(idx), queue)
    }
}

/// What the host does for an action.
#[derive(Debug, PartialEq, Eq)]
pub enum TrayStep {
    Window(WindowOp),
    /// Close every window without asking, and leave.
    Quit,
    Notify { title: String, body: String },
    OpenWindow,
    CloseWindow(String),
}

/// What the host does for an action, with its texts.
pub enum TrayStepView {
    Window(WindowOp),
    Quit,
    Notify { title: Seq<char>, body: Seq<char> },
    OpenWindow,
    CloseWindow(Seq<char>),
}

impl View for TrayStep {
    type V = TrayStepView;

    open spec fn view(&self) -> TrayStepView {
        match self {
            TrayStep::Window(op) => TrayStepView::Window(*op),
            TrayStep::Quit => TrayStepView::Quit,
            TrayStep::Notify { title, body } => TrayStepView::Notify {
                title: title@,
                body: body@,
            },
            TrayStep::OpenWindow => TrayStepView::OpenWindow,
            TrayStep::CloseWindow(key) => TrayStepView::CloseWindow(key@),
        }
    }
}

/// What the host does for an action while the window is visible or not.
pub open spec fn step_for(action: TrayActionView, visible: bool) -> TrayStepView {
    match action {
        TrayActionView::Show => TrayStepView::Window(WindowOp::Show),
        TrayActionView::Hide => TrayStepView::Window(WindowOp::Hide),
        TrayActionView::Toggle => TrayStepView::Window(
            if visible { WindowOp::Hide } else { WindowOp::Show },
        ),
        TrayActionView::Quit => TrayStepView::Quit,
        TrayActionView::Notify { title, body } => TrayStepView::Notify { title, body },
        TrayActionView::OpenWindow => TrayStepView::OpenWindow,
        TrayActionView::CloseWindow(key) => TrayStepView::CloseWindow(key),
    }
}

/// What the host does for an action. `visible` is what the window really is at that moment: it
/// may have been hidden behind the application's back.
pub fn tray_step(action: TrayAction, visible: bool) -> (r: TrayStep)
    ensures
        r@ == step_for(action@, visible),
{
    match action {
        TrayAction::Show => TrayStep::Window(WindowOp::Show),
        TrayAction::Hide => TrayStep::Window(WindowOp::Hide),
        TrayAction::Toggle => TrayStep::Window(
            if visible {
                WindowOp::Hide
            } else {
                WindowOp::Show
            },
        ),
        TrayAction::Quit => TrayStep::Quit,
        TrayAction::Notify { title, body } => TrayStep::Notify { title, body },
        TrayAction::OpenWindow => TrayStep::OpenWindow,
        TrayAction::CloseWindow(key) => TrayStep::CloseWindow(key),
    }
}

/// The actions that take effect: all up to and with the first that leaves the application.
pub open spec fn until_quit(s: Seq<TrayActionView>) -> Seq<TrayActionView>
    decreases s.len(),
{
    if s.len() == 0 {
        Seq::empty()
    } else if s[0] is Quit {
        seq![s[0]]
    } else {
        seq![s[0]] + until_quit(s.skip(1))
    }
}

/// The actions that take effect: what follows a quit is dropped, since the window is gone by
/// then.
pub fn effective_actions(actions: Vec<TrayAction>) -> (r: Vec<TrayAction>)
    ensures
        action_views(r@) == until_quit(action_views(actions@)),
{
    let ghost all = action_views(actions@);
    let mut n: usize = 0;
    let mut quit = false;
    assert(all.skip(0) =~= all);
    assert(all.take(0) + until_quit(all) =~= until_quit(all));
    while n < actions.len() && !quit
        invariant
            n <= actions@.len(),
            all == action_views(actions@),
            quit ==> n > 0 && until_quit(all) == all.take(n as int),
            !quit ==> until_quit(all) == all.take(n as int) + until_quit(all.skip(n as int)),
        decreases actions@.len() - n + (if quit { 0int } else { 1int }),
    {
        proof {
            assert(all.skip(n as int)[0] == all[n as int]);
            assert(all.skip(n as int).skip(1) =~= all.skip(n + 1));
            assert(all.take(n + 1) =~= all.take(n as int) + seq![all[n as int]]);
            assert(all.take(n as int) + (seq![all[n as int]] + until_quit(all.skip(n + 1)))
                =~= all.take(n + 1) + until_quit(all.skip(n + 1)));
        }
        if let TrayAction::Quit = &actions[n] {
            quit = true;
        }
        n += 1;
    }
    proof {
        if !quit {
            assert(all.skip(n as int) =~= Seq::empty());
            assert(all.take(n as int) + until_quit(all.skip(n as int)) =~= all.take(n as int));
        }
    }
    let mut actions = actions;
    actions.truncate(n);
    assert(action_views(actions@) =~= all.take(n as int));
    actions
}

/// What takes effect is a prefix of what was asked for, in the same order; nothing follows a
/// quit in it, and without a quit all of it takes effect.
pub proof fn until_quit_is_a_prefix(s: Seq<TrayActionView>)
    ensures
        until_quit(s).is_prefix_of(s),
        (forall|i: int| 0 <= i < s.len() ==> !(#[trigger] s[i] is Quit)) ==> until_quit(s) == s,
        forall|i: int|
            0 <= i < until_quit(s).len() - 1 ==> !(#[trigger] until_quit(s)[i] is Quit),
    decreases s.len(),
{
    if s.len() > 0 && !(s[0] is Quit) {
        until_quit_is_a_prefix(s.skip(1));
        let rest = until_quit(s.skip(1));
        assert(s.skip(1).subrange(0, rest.len() as int) =~= rest);
        assert(s.subrange(0, until_quit(s).len() as int) =~= until_quit(s)) by {
            assert forall|i: int| 0 <= i < until_quit(s).len() implies s[i] == until_quit(s)[i] by {
                if i > 0 {
                    assert(s.skip(1).subrange(0, rest.len() as int)[i - 1] == rest[i - 1]);
                }
            }
        }
        assert forall|i: int| 0 <= i < until_quit(s).len() - 1 implies !(#[trigger] until_quit(s)[i]
            is Quit) by {
            if i > 0 {
                assert(until_quit(s)[i] == rest[i - 1]);
            }
        }
        if forall|i: int| 0 <= i < s.len() ==> !(#[trigger] s[i] is Quit) {
            assert forall|i: int| 0 <= i < s.skip(1).len() implies !(#[trigger] s.skip(1)[i]
                is Quit) by {
                assert(s.skip(1)[i] == s[i + 1]);
            }
            assert(seq![s[0]] + s.skip(1) =~= s);
        }
    }
}

/// To toggle is to hide what can be seen and to show what cannot; to show and to hide do not depend
/// on it. Texts and keys are passed on as they are.
pub proof fn toggling_depends_on_the_window(visible: bool, a: Seq<char>, b: Seq<char>)
    ensures
        step_for(TrayActionView::Toggle, true) == step_for(TrayActionView::Hide, visible),
        step_for(TrayActionView::Toggle, false) == step_for(TrayActionView::Show, visible),
        step_for(TrayActionView::Show, visible) == TrayStepView::Window(WindowOp::Show),
        step_for(TrayActionView::Hide, visible) == TrayStepView::Window(WindowOp::Hide),
        step_for(TrayActionView::Quit, visible) is Quit,
        step_for(TrayActionView::OpenWindow, visible) is OpenWindow,
        step_for(TrayActionView::Notify { title: a, body: b }, visible) == (TrayStepView::Notify {
            title: a,
            body: b,
        }),
        step_for(TrayActionView::CloseWindow(a), visible) == TrayStepView::CloseWindow(a),
{
}

/// What takes effect ends with the first quit, and has everything before it.
pub proof fn the_first_quit_is_the_last_action(s: Seq<TrayActionView>, i: int)
    requires
        0 <= i < s.len(),
        s[i] is Quit,
        forall|j: int| 0 <= j < i ==> !(#[trigger] s[j] is Quit),
    ensures
        until_quit(s) == s.take(i + 1),
    decreases s.len(),
{
    if i == 0 {
        assert(s.take(1) =~= seq![s[0]]);
    } else {
        let rest = s.skip(1);
        assert(!(s[0] is Quit));
        assert(rest[i - 1] == s[i]);
        assert forall|j: int| 0 <= j < i - 1 implies !(#[trigger] rest[j] is Quit) by {
            assert(rest[j] == s[j + 1]);
        }
        the_first_quit_is_the_last_action(rest, i - 1);
        assert(seq![s[0]] + rest.take(i) =~= s.take(i + 1));
    }
}

/// The windows that actions open are counted one by one.
pub proof fn opened_windows_are_counted(a: Seq<TrayActionView>, b: Seq<TrayActionView>)
    ensures
        open_marks(a + b) == open_marks(a) + open_marks(b),
        open_marks(seq![TrayActionView::OpenWindow]) == 1,
        open_marks(a) <= a.len(),
    decreases a.len() + b.len(),
{
    let one = seq![TrayActionView::OpenWindow];
    assert(one.drop_last() =~= Seq::<TrayActionView>::empty());
    assert(one.last() is OpenWindow);
    assert(open_marks(one.drop_last()) == 0);
    if b.len() == 0 {
        assert(a + b =~= a);
        if a.len() > 0 {
            opened_windows_are_counted(a.drop_last(), b);
        }
    } else {
        opened_windows_are_counted(a, b.drop_last());
        assert((a + b).drop_last() =~= a + b.drop_last());
        assert((a + b).last() == b.last());
    }
}

/// An item is ticked and usable by its signals of the moment; without one it is not ticked and can
/// be used. A separator is a separator.
pub proof fn items_follow_their_signals<F>(item: TrayMenuItem<F>, now: Signals)
    requires
        item.valid(now),
    ensures
        item.kind is Separator <==> item.entry(now) is Separator,
        item.kind matches ItemKind::Action { label, checked, enabled, cb: _ } ==> (item.entry(
            now,
        ) matches MenuEntryView::Item { label: shown, checked: ticked, usable } && {
            &&& checked is None ==> !ticked
            &&& enabled is None ==> usable
            &&& checked matches Some(s) ==> ticked == now.flags@[s.slot as int]
            &&& enabled matches Some(s) ==> usable == now.flags@[s.slot as int]
            &&& label matches crate::signal::TextContent::Plain(t) ==> shown == t@
            &&& label matches crate::signal::TextContent::Live(k) ==> shown == now.texts@[k as int]@
        }),
{
}

} // verus!
