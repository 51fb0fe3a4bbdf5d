//! File dialogs: a description that is built up, and the requests that a callback leaves behind to
//! be run when its event is over. The description itself is rfd's `FileDialog`.

use crate::text;
use vstd::prelude::*;

verus! {

/// rfd's description of a dialog.
#[verifier::external_type_specification]
#[verifier::external_body]
pub struct ExFileDialog(rfd::FileDialog);

/// The title of a dialog.
pub uninterp spec fn dialog_title(d: rfd::FileDialog) -> Option<Seq<char>>;

/// The filters of a dialog: each with its name and its extensions.
pub uninterp spec fn dialog_filters(d: rfd::FileDialog) -> Seq<(Seq<char>, Seq<Seq<char>>)>;

/// The directory that a dialog starts in.
pub uninterp spec fn dialog_directory(d: rfd::FileDialog) -> Option<Seq<char>>;

/// The file name that a dialog starts with.
pub uninterp spec fn dialog_file_name(d: rfd::FileDialog) -> Option<Seq<char>>;

/// `FileDialog::new`: nothing is set.
#[verifier::external_body]
fn new_dialog() -> (r: rfd::FileDialog)
    ensures
        dialog_title(r) is None,
        dialog_filters(r) == Seq::<(Seq<char>, Seq<Seq<char>>)>::empty(),
        dialog_directory(r) is None,
        dialog_file_name(r) is None,
{
    rfd::FileDialog::new()
}

/// `FileDialog::set_title`: sets the title and nothing else.
#[verifier::external_body]
fn with_title(d: rfd::FileDialog, title: &str) -> (r: rfd::FileDialog)
    ensures
        dialog_title(r) == Some(title@),
        dialog_filters(r) == dialog_filters(d),
        dialog_directory(r) == dialog_directory(d),
        dialog_file_name(r) == dialog_file_name(d),
{
    d.set_title(title)
}

/// `FileDialog::add_filter`: adds a filter behind the others and changes nothing else.
#[verifier::external_body]
fn with_filter(d: rfd::FileDialog, name: &str, extensions: &[String]) -> (r: rfd::FileDialog)
    ensures
        dialog_filters(r) == dialog_filters(d).push((name@, text::texts(extensions@))),
        dialog_title(r) == dialog_title(d),
        dialog_directory(r) == dialog_directory(d),
        dialog_file_name(r) == dialog_file_name(d),
{
    d.add_filter(name, extensions)
}

/// `FileDialog::set_directory`: sets the directory, or clears it where the path is empty, and
/// changes nothing else.
#[verifier::external_body]
fn with_directory(d: rfd::FileDialog, path: &str) -> (r: rfd::FileDialog)
    ensures
        dialog_directory(r) == (if path@.len() == 0 { None } else { Some(path@) }),
        dialog_title(r) == dialog_title(d),
        dialog_filters(r) == dialog_filters(d),
        dialog_file_name(r) == dialog_file_name(d),
{
    d.set_directory(path)
}

/// `FileDialog::set_file_name`: sets the file name and nothing else.
#[verifier::external_body]
fn with_file_name(d: rfd::FileDialog, name: &str) -> (r: rfd::FileDialog)
    ensures
        dialog_file_name(r) == Some(name@),
        dialog_title(r) == dialog_title(d),
        dialog_filters(r) == dialog_filters(d),
        dialog_directory(r) == dialog_directory(d),
{
    d.set_file_name(name)
}

/// Whether a control's callback is running. A dialog that opens then would fight with the window
/// for the mouse.
#[derive(Clone, Copy, Debug, PartialEq, Eq, Structural)]
pub struct EventDispatch {
    pub active: bool,
}

impl EventDispatch {
    pub fn new() -> (r: EventDispatch)
        ensures
            !r.active,
    {
        EventDispatch { active: false }
    }

    /// A callback is about to run.
    pub fn enter(&mut self)
        ensures
            final(self).active,
    {
        self.active = true;
    }

    /// The callback has returned.
    pub fn leave(&mut self)
        ensures
            !final(self).active,
    {
        self.active = false;
    }

    pub fn in_event_dispatch(&self) -> (r: bool)
        ensures
            r == self.active,
    {
        self.active
    }
}

/// The description of a file dialog.
pub struct PickDialog {
    pub dialog: rfd::FileDialog,
}

/// What a dialog's description says.
pub struct PickDialogView {
    pub title: Option<Seq<char>>,
    pub filters: Seq<(Seq<char>, Seq<Seq<char>>)>,
    pub directory: Option<Seq<char>>,
    pub file_name: Option<Seq<char>>,
}

impl View for PickDialog {
    type V = PickDialogView;

    open spec fn view(&self) -> PickDialogView {
        PickDialogView {
            title: dialog_title(self.dialog),
            filters: dialog_filters(self.dialog),
            directory: dialog_directory(self.dialog),
            file_name: dialog_file_name(self.dialog),
        }
    }
}

impl PickDialog {
    pub fn new() -> (r: PickDialog)
        ensures
            r@ == (PickDialogView {
                title: None,
                filters: Seq::empty(),
                directory: None,
                file_name: None,
            }),
    {
        PickDialog { dialog: new_dialog() }
    }

    pub fn title(self, title: &str) -> (r: PickDialog)
        ensures
            r@ == (PickDialogView { title: Some(title@), ..self@ }),
    {
        PickDialog { dialog: with_title(self.dialog, title) }
    }

    /// Adds a filter: its name and the extensions that it lets through.
    pub fn filter(self, name: &str, extensions: &[String]) -> (r: PickDialog)
        ensures
            r@ == (PickDialogView {
                filters: self@.filters.push((name@, text::texts(extensions@))),
                ..self@
            }),
    {
        PickDialog { dialog: with_filter(self.dialog, name, extensions) }
    }

    /// The directory to start in; an empty one stands for none.
    pub fn directory(self, path: &str) -> (r: PickDialog)
        ensures
            r@ == (PickDialogView {
                directory: if path@.len() == 0 { None } else { Some(path@) },
                ..self@
            }),
    {
        PickDialog { dialog: with_directory(self.dialog, path) }
    }

    pub fn file_name(self, name: &str) -> (r: PickDialog)
        ensures
            r@ == (PickDialogView { file_name: Some(name@), ..self@ }),
    {
        PickDialog { dialog: with_file_name(self.dialog, name) }
    }

    /// The dialog, ready to be opened. That is not allowed while a callback is running.
    pub fn into_dialog(self, dispatch: &EventDispatch) -> (r: rfd::FileDialog)
        requires
            !dispatch.active,
        ensures
            r == self.dialog,
    {
        self.dialog
    }
}

impl Default for PickDialog {
    fn default() -> (r: PickDialog)
        ensures
            r@ == (PickDialogView {
                title: None,
                filters: Seq::empty(),
                directory: None,
                file_name: None,
            }),
    {
        PickDialog::new()
    }
}

/// Which dialog is opened for one path.
#[derive(Clone, Copy, Debug, PartialEq, Eq, Structural)]
pub enum PickOne {
    File,
    Folder,
    SaveFile,
}

/// Which dialog is opened for several paths.
#[derive(Clone, Copy, Debug, PartialEq, Eq, Structural)]
pub enum PickMany {
    Files,
    Folders,
}

/// What a callback asked to have done when its event is over. The callbacks take one path, several
/// paths or nothing.
pub enum DialogRequest<S, M, C> {
    PickFile(PickDialog, S),
    PickFiles(PickDialog, M),
    PickFolder(PickDialog, S),
    PickFolders(PickDialog, M),
    SaveFile(PickDialog, S),
    Custom(C),
}

impl<
    S: FnOnce(Option<String>),
    M: FnOnce(Option<Vec<String>>),
    C: FnOnce(),
> DialogRequest<S, M, C> {
    /// The dialog for one path, with its callback.
    pub open spec fn one(self) -> Option<(PickOne, PickDialog, S)> {
        match self {
            DialogRequest::PickFile(d, cb) => Some((PickOne::File, d, cb)),
            DialogRequest::PickFolder(d, cb) => Some((PickOne::Folder, d, cb)),
            DialogRequest::SaveFile(d, cb) => Some((PickOne::SaveFile, d, cb)),
            _ => None,
        }
    }

    /// The dialog for several paths, with its callback.
    pub open spec fn many(self) -> Option<(PickMany, PickDialog, M)> {
        match self {
            DialogRequest::PickFiles(d, cb) => Some((PickMany::Files, d, cb)),
            DialogRequest::PickFolders(d, cb) => Some((PickMany::Folders, d, cb)),
            _ => None,
        }
    }

    /// Carries out a request: opens its dialog and hands the answer to its callback, or just runs
    /// the callback. `ask_one` and `ask_many` open a dialog and wait for the answer.
    pub fn run<A: FnOnce(PickOne, PickDialog) -> Option<String>, B: FnOnce(PickMany, PickDialog) -> Option<Vec<String>>>(
        self,
        ask_one: A,
        ask_many: B,
    )
        requires
            self.one() matches Some((kind, d, cb)) ==> call_requires(ask_one, (kind, d)) && forall|
                p: Option<String>,
            | #[trigger]
                call_ensures(ask_one, (kind, d), p) ==> call_requires(cb, (p,)),
            self.many() matches Some((kind, d, cb)) ==> call_requires(ask_many, (kind, d)) && forall|
                p: Option<Vec<String>>,
            | #[trigger]
                call_ensures(ask_many, (kind, d), p) ==> call_requires(cb, (p,)),
            self matches DialogRequest::Custom(f) ==> call_requires(f, ()),
        ensures
            self.one() matches Some((kind, d, cb)) ==> exists|p: Option<String>| #[trigger]
                call_ensures(ask_one, (kind, d), p) && call_ensures(cb, (p,), ()),
            self.many() matches Some((kind, d, cb)) ==> exists|p: Option<Vec<String>>| #[trigger]
                call_ensures(ask_many, (kind, d), p) && call_ensures(cb, (p,), ()),
            self matches DialogRequest::Custom(f) ==> call_ensures(f, (), ()),
    {
        match self {
            DialogRequest::PickFile(d, cb) => {
                let p = ask_one(PickOne::File, d);
                cb(p);
            },
            DialogRequest::PickFiles(d, cb) => {
                let p = ask_many(PickMany::Files, d);
                cb(p);
            },
            DialogRequest::PickFolder(d, cb) => {
                let p = ask_one(PickOne::Folder, d);
                cb(p);
            },
            DialogRequest::PickFolders(d, cb) => {
                let p = ask_many(PickMany::Folders, d);
                cb(p);
            },
            DialogRequest::SaveFile(d, cb) => {
                let p = ask_one(PickOne::SaveFile, d);
                cb(p);
            },
            DialogRequest::Custom(f) => f(),
        }
    }
}

/// A request opens a dialog for one path or for several, or opens none and just runs.
pub proof fn a_request_opens_one_dialog<
    S: FnOnce(Option<String>),
    M: FnOnce(Option<Vec<String>>),
    C: FnOnce(),
>(d: PickDialog, s: S, m: M, c: C)
    ensures
        DialogRequest::<S, M, C>::PickFile(d, s).one() == Some((PickOne::File, d, s)),
        DialogRequest::<S, M, C>::PickFolder(d, s).one() == Some((PickOne::Folder, d, s)),
        DialogRequest::<S, M, C>::SaveFile(d, s).one() == Some((PickOne::SaveFile, d, s)),
        DialogRequest::<S, M, C>::PickFiles(d, m).many() == Some((PickMany::Files, d, m)),
        DialogRequest::<S, M, C>::PickFolders(d, m).many() == Some((PickMany::Folders, d, m)),
        forall|r: DialogRequest<S, M, C>| !(#[trigger] r.one() is Some && r.many() is Some),
        forall|r: DialogRequest<S, M, C>|
            #[trigger] r.one() is None && r.many() is None <==> r is Custom,
{
}

} // verus!
