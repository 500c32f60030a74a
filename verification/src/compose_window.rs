//! Compose windows: the state of one window per message being written, and
//! what its buttons, its close button and the outcome of a send do to it.
//!
//! A window never touches the rest of the program. Its buttons set
//! `send_requested` and `finished`, which the main program picks up.

use vstd::prelude::*;
use vstd::string::*;
use crate::compose;
use crate::compose::{ComposeModel, ComposeState};
use crate::files;
use crate::text;
use crate::text::Text;

verus! {

broadcast use vstd::string::group_string_axioms;

/// Identifies a compose window for as long as the program runs.
pub type ComposeId = u64;

/// Where the caret goes when a window first opens.
#[derive(Debug, Clone, Copy, PartialEq, Eq, Structural)]
pub enum Focus {
    /// A new message: the recipient.
    To,
    /// A reply or forward: the text, ready to type above the quote.
    Body,
}

/// The state of one compose window.
pub struct ComposeWindow {
    pub id: ComposeId,
    pub state: ComposeState,
    /// What the window opened with.
    pub initial: ComposeState,
    /// `(account id, label)` for the From selector.
    pub accounts: Vec<(String, String)>,
    /// The last thing that went wrong; shown until the next send.
    pub error: Option<String>,
    /// A send is in flight: the form is locked.
    pub sending: bool,
    /// Send was clicked.
    pub send_requested: bool,
    /// The user is done with the message.
    pub finished: bool,
    /// The "discard this unsent message?" question is showing.
    pub confirm_discard: bool,
    pub focus: Option<Focus>,
}

/// What a [`ComposeWindow`] holds.
#[verifier::ext_equal]
pub struct WindowModel {
    pub id: ComposeId,
    pub state: ComposeModel,
    pub initial: ComposeModel,
    pub accounts: Seq<(Text, Text)>,
    pub error: Option<Text>,
    pub sending: bool,
    pub send_requested: bool,
    pub finished: bool,
    pub confirm_discard: bool,
    pub focus: Option<Focus>,
}

impl View for ComposeWindow {
    type V = WindowModel;

    open spec fn view(&self) -> WindowModel {
        WindowModel {
            id: self.id,
            state: self.state@,
            initial: self.initial@,
            accounts: self.accounts.deep_view(),
            error: self.error.deep_view(),
            sending: self.sending,
            send_requested: self.send_requested,
            finished: self.finished,
            confirm_discard: self.confirm_discard,
            focus: self.focus,
        }
    }
}

impl DeepView for ComposeWindow {
    type V = WindowModel;

    open spec fn deep_view(&self) -> WindowModel {
        self.view()
    }
}

// ── What a window is after each step ────────────────────────────────────────

impl WindowModel {
    /// A window that has just been opened.
    pub open spec fn opened(id: ComposeId, state: ComposeModel, focus: Focus) -> WindowModel {
        WindowModel {
            id,
            state,
            initial: state,
            accounts: seq![],
            error: None,
            sending: false,
            send_requested: false,
            finished: false,
            confirm_discard: false,
            focus: Some(focus),
        }
    }

    /// Whether closing the window would lose something: typing, or a send that
    /// has not come back.
    pub open spec fn is_dirty(self) -> bool {
        self.state != self.initial || self.sending
    }

    /// The window once its message is kept as the draft `id`.
    pub open spec fn with_draft(self, id: i64) -> WindowModel {
        WindowModel {
            state: ComposeModel { draft_id: Some(id), ..self.state },
            initial: ComposeModel { draft_id: Some(id), ..self.initial },
            ..self
        }
    }

    /// The window locked or unlocked for a send.
    pub open spec fn with_sending(self, sending: bool) -> WindowModel {
        WindowModel {
            sending,
            error: if sending {
                None
            } else {
                self.error
            },
            ..self
        }
    }

    /// The window after a problem: unlocked, with the problem on show.
    pub open spec fn with_error(self, error: Text) -> WindowModel {
        WindowModel { sending: false, error: Some(error), ..self }
    }

    /// The message that was asked to be sent, if one was.
    pub open spec fn request(self) -> Option<ComposeModel> {
        if self.send_requested {
            Some(self.state)
        } else {
            None
        }
    }

    /// The window once its request was picked up.
    pub open spec fn request_taken(self) -> WindowModel {
        WindowModel { send_requested: false, ..self }
    }

    /// The window once the user is done with it.
    pub open spec fn done(self) -> WindowModel {
        WindowModel { finished: true, ..self }
    }

    /// The window after a click on Discard.
    pub open spec fn discarded(self) -> WindowModel {
        if self.sending {
            WindowModel { confirm_discard: true, ..self }
        } else {
            WindowModel { finished: true, ..self }
        }
    }

    /// Whether a close request has to be cancelled to ask first.
    pub open spec fn close_is_cancelled(self, close_requested: bool) -> bool {
        close_requested && self.is_dirty() && !self.finished
    }

    /// The window after its own close button had its effect.
    pub open spec fn after_close_request(self, close_requested: bool) -> WindowModel {
        if self.close_is_cancelled(close_requested) {
            WindowModel { confirm_discard: true, ..self }
        } else if close_requested {
            WindowModel { finished: true, ..self }
        } else {
            self
        }
    }

    /// Whether the send shortcut sends.
    pub open spec fn shortcut_sends(self, ctrl_enter: bool) -> bool {
        ctrl_enter && !self.sending && !self.confirm_discard
    }

    /// The window after a click in its action bar. A button that the bar does
    /// not show has no effect.
    pub open spec fn pressed(self, press: Press) -> WindowModel {
        match press {
            Press::ConfirmDiscard if self.confirm_discard => WindowModel { finished: true, ..self },
            Press::KeepEditing if self.confirm_discard => WindowModel {
                confirm_discard: false,
                ..self
            },
            Press::Discard if !self.confirm_discard => self.discarded(),
            _ => self,
        }
    }

    /// Whether a click in the action bar sends.
    pub open spec fn press_sends(self, press: Press) -> bool {
        press == Press::Send && !self.confirm_discard && !self.sending
    }

    /// The window at the end of a frame in which sending was asked for or not.
    pub open spec fn frame_ended(self, send: bool) -> WindowModel {
        if send {
            WindowModel { send_requested: true, error: None, ..self }
        } else {
            self
        }
    }

    /// The title of the native window.
    pub open spec fn title(self) -> Text {
        if text::trim(self.state.subject).len() == 0 {
            "New message — esMail"@
        } else {
            text::trim(self.state.subject) + " — esMail"@
        }
    }

    /// The name of the account the message is sent from.
    pub open spec fn from_label(self) -> Text {
        match self.state.account_id {
            Some(id) => label_of(self.accounts, id),
            None => "(choose an account)"@,
        }
    }

    /// The window with its message sent from the `i`-th account of the selector.
    pub open spec fn sent_from(self, i: int) -> WindowModel {
        WindowModel {
            state: ComposeModel { account_id: Some(self.accounts[i].0), ..self.state },
            ..self
        }
    }

    /// The window with one more file; one without a name is called `attachment`.
    pub open spec fn with_file(self, filename: Option<Text>, data: Seq<u8>) -> WindowModel {
        let name = match filename {
            Some(name) => name,
            None => "attachment"@,
        };
        WindowModel {
            state: ComposeModel { attachments: self.state.attachments.push((name, data)), ..self.state },
            ..self
        }
    }

    /// The window without its `i`-th file.
    pub open spec fn without_file(self, i: int) -> WindowModel {
        WindowModel {
            state: ComposeModel { attachments: self.state.attachments.remove(i), ..self.state },
            ..self
        }
    }

    /// The window after a file that could not be read.
    pub open spec fn file_refused(self, path: Text, error: Text) -> WindowModel {
        WindowModel { error: Some("Could not read "@ + path + ": "@ + error), ..self }
    }

    /// The `i`-th file's name and size.
    pub open spec fn file_text(self, i: int) -> Text {
        self.state.attachments[i].0 + " ("@ + files::size_text(self.state.attachments[i].1.len())
            + ")"@
    }

    /// The window once it was asked whether the caret goes into a field.
    pub open spec fn focus_asked(self, field: Focus) -> WindowModel {
        WindowModel {
            focus: if self.focus == Some(field) {
                None
            } else {
                self.focus
            },
            ..self
        }
    }

    /// What the action bar shows.
    pub open spec fn action_bar(self) -> ActionBarModel {
        if self.confirm_discard {
            ActionBarModel::Confirm(
                if self.sending {
                    "A send is still in progress and can't be stopped -- discard this window anyway?"@
                } else {
                    "Discard this unsent message?"@
                },
            )
        } else {
            ActionBarModel::Buttons {
                send_enabled: !self.sending,
                spinner: self.sending,
                error: if self.sending {
                    None
                } else {
                    self.error
                },
            }
        }
    }
}

/// The label of the account with the given id, or the invitation to choose one.
pub open spec fn label_of(accounts: Seq<(Text, Text)>, id: Text) -> Text
    decreases accounts.len(),
{
    if accounts.len() == 0 {
        "(choose an account)"@
    } else if accounts.first().0 == id {
        accounts.first().1
    } else {
        label_of(accounts.drop_first(), id)
    }
}

/// A click in the action bar.
#[derive(Debug, Clone, Copy, PartialEq, Eq, Structural)]
pub enum Press {
    Send,
    Discard,
    ConfirmDiscard,
    KeepEditing,
}

/// What the action bar shows.
#[derive(Debug)]
pub enum ActionBar {
    /// The question whether to discard, with Discard and Keep editing.
    Confirm(String),
    /// Send and Discard, and what the last or current send has to say.
    Buttons { send_enabled: bool, spinner: bool, error: Option<String> },
}

/// What an [`ActionBar`] holds.
#[verifier::ext_equal]
pub enum ActionBarModel {
    Confirm(Text),
    Buttons { send_enabled: bool, spinner: bool, error: Option<Text> },
}

impl View for ActionBar {
    type V = ActionBarModel;

    open spec fn view(&self) -> ActionBarModel {
        match self {
            ActionBar::Confirm(question) => ActionBarModel::Confirm(question@),
            ActionBar::Buttons { send_enabled, spinner, error } => ActionBarModel::Buttons {
                send_enabled: *send_enabled,
                spinner: *spinner,
                error: error.deep_view(),
            },
        }
    }
}

// ── Comparing messages ──────────────────────────────────────────────────────

/// Whether two optional strings are the same.
pub fn same_option(a: &Option<String>, b: &Option<String>) -> (r: bool)
    ensures
        r == (a.deep_view() == b.deep_view()),
{
    match (a, b) {
        (Some(x), Some(y)) => *x == *y,
        (None, None) => true,
        _ => false,
    }
}

/// Whether two lists of named files are the same.
fn same_files(a: &Vec<(String, Vec<u8>)>, b: &Vec<(String, Vec<u8>)>) -> (r: bool)
    ensures
        r == (a.deep_view() == b.deep_view()),
{
    if a.len() != b.len() {
        assert(a.deep_view().len() != b.deep_view().len());
        return false;
    }
    let ghost x = a.deep_view();
    let ghost y = b.deep_view();
    let mut i: usize = 0;
    while i < a.len()
        invariant
            a@.len() == b@.len(),
            i <= a@.len(),
            x == a.deep_view(),
            y == b.deep_view(),
            forall|j: int| 0 <= j < i ==> x[j] == y[j],
        decreases a@.len() - i,
    {
        if a[i].0 != b[i].0 || !text::same_bytes(&a[i].1, &b[i].1) {
            assert(x[i as int] != y[i as int]);
            return false;
        }
        i += 1;
    }
    assert(x =~= y);
    true
}

/// Whether two messages hold the same.
pub fn same_message(a: &ComposeState, b: &ComposeState) -> (r: bool)
    ensures
        r == (a@ == b@),
{
    let same_draft = match (a.draft_id, b.draft_id) {
        (Some(x), Some(y)) => x == y,
        (None, None) => true,
        _ => false,
    };
    let r = a.to == b.to && a.cc == b.cc && a.bcc == b.bcc && a.subject == b.subject && a.body
        == b.body && same_option(&a.in_reply_to, &b.in_reply_to) && same_option(
        &a.references,
        &b.references,
    ) && same_files(&a.attachments, &b.attachments) && same_option(&a.account_id, &b.account_id)
        && same_draft;
    assert(r ==> a@ =~= b@);
    r
}

// ── The window, executable ──────────────────────────────────────────────────

impl ComposeWindow {
    /// Opens a window on a message.
    pub fn new(id: ComposeId, state: ComposeState, focus: Focus) -> (r: Self)
        ensures
            r@ == WindowModel::opened(id, state@, focus),
    {
        let r = ComposeWindow {
            id,
            initial: state.clone(),
            state,
            accounts: Vec::new(),
            error: None,
            sending: false,
            send_requested: false,
            finished: false,
            confirm_discard: false,
            focus: Some(focus),
        };
        assert(r.accounts.deep_view() =~= seq![]);
        r
    }

    /// The window's id.
    pub fn id(&self) -> (r: ComposeId)
        ensures
            r == self@.id,
    {
        self.id
    }

    /// Whether closing this window now would lose typing, or a send that has
    /// not come back yet.
    pub fn is_dirty(&self) -> (r: bool)
        ensures
            r == self@.is_dirty(),
    {
        !same_message(&self.state, &self.initial) || self.sending
    }

    /// The message, if Send was clicked since the last call.
    pub fn take_send_request(&mut self) -> (r: Option<ComposeState>)
        ensures
            final(self)@ == old(self)@.request_taken(),
            r.deep_view() == old(self)@.request(),
    {
        if self.send_requested {
            self.send_requested = false;
            Some(self.state.clone())
        } else {
            None
        }
    }

    /// Whether the user is done with the message.
    pub fn is_finished(&self) -> (r: bool)
        ensures
            r == self@.finished,
    {
        self.finished
    }

    /// The account the message is to be sent from.
    pub fn account_id(&self) -> (r: Option<String>)
        ensures
            r.deep_view() == self@.state.account_id,
    {
        compose::copy_option(&self.state.account_id)
    }

    /// A copy of the form's current contents.
    pub fn snapshot(&self) -> (r: ComposeState)
        ensures
            r@ == self@.state,
    {
        self.state.clone()
    }

    /// Records which draft this window saves itself into from now on.
    pub fn set_draft_id(&mut self, id: i64)
        ensures
            final(self)@ == old(self)@.with_draft(id),
    {
        self.state.draft_id = Some(id);
        self.initial.draft_id = Some(id);
    }

    /// Locks or unlocks the form for a send in flight; starting one clears the
    /// previous error.
    pub fn set_sending(&mut self, sending: bool)
        ensures
            final(self)@ == old(self)@.with_sending(sending),
    {
        self.sending = sending;
        if sending {
            self.error = None;
        }
    }

    /// Reports a problem in this window and unlocks it.
    pub fn set_error(&mut self, error: String)
        ensures
            final(self)@ == old(self)@.with_error(error@),
    {
        self.sending = false;
        self.error = Some(error);
    }

    /// Marks the message sent: the user is done with the window.
    pub fn mark_sent(&mut self)
        ensures
            final(self)@ == old(self)@.done(),
    {
        self.finished = true;
    }

    /// The title of the native window.
    pub fn title(&self) -> (r: String)
        ensures
            r@ == self@.title(),
    {
        let subject = text::trimmed(self.state.subject.as_str());
        if subject.as_str().is_empty() {
            "New message — esMail".to_owned()
        } else {
            let mut r = subject;
            r.append(" — esMail");
            r
        }
    }

    /// What a click on Discard does: it finishes the window at once, unless a
    /// send is in flight, which cannot be cancelled and is asked about first.
    pub fn discard_clicked(&mut self)
        ensures
            final(self)@ == old(self)@.discarded(),
    {
        if self.sending {
            self.confirm_discard = true;
        } else {
            self.finished = true;
        }
    }

    /// Begins a frame with the window's own close button and the send shortcut.
    /// Tells whether the close has to be cancelled, and whether to send.
    pub fn begin_frame(&mut self, close_requested: bool, ctrl_enter: bool) -> (r: (bool, bool))
        ensures
            final(self)@ == old(self)@.after_close_request(close_requested),
            r.0 == old(self)@.close_is_cancelled(close_requested),
            r.1 == final(self)@.shortcut_sends(ctrl_enter),
    {
        let mut cancel = false;
        if close_requested {
            if self.is_dirty() && !self.finished {
                cancel = true;
                self.confirm_discard = true;
            } else {
                self.finished = true;
            }
        }
        (cancel, ctrl_enter && !self.sending && !self.confirm_discard)
    }

    /// What the action bar shows.
    pub fn action_bar(&self) -> (r: ActionBar)
        ensures
            r@ == self@.action_bar(),
    {
        if self.confirm_discard {
            if self.sending {
                ActionBar::Confirm(
                    "A send is still in progress and can't be stopped -- discard this window anyway?".to_owned(),
                )
            } else {
                ActionBar::Confirm("Discard this unsent message?".to_owned())
            }
        } else {
            ActionBar::Buttons {
                send_enabled: !self.sending,
                spinner: self.sending,
                error: if self.sending {
                    None
                } else {
                    compose::copy_option(&self.error)
                },
            }
        }
    }

    /// A click in the action bar. Tells whether to send.
    pub fn press(&mut self, press: Press) -> (send: bool)
        ensures
            final(self)@ == old(self)@.pressed(press),
            send == old(self)@.press_sends(press),
    {
        if self.confirm_discard {
            match press {
                Press::ConfirmDiscard => {
                    self.finished = true;
                },
                Press::KeepEditing => {
                    self.confirm_discard = false;
                },
                _ => {},
            }
            false
        } else {
            match press {
                Press::Send => !self.sending,
                Press::Discard => {
                    self.discard_clicked();
                    false
                },
                _ => false,
            }
        }
    }

    /// The name of the account the message is sent from.
    pub fn from_label(&self) -> (r: String)
        ensures
            r@ == self@.from_label(),
    {
        let id = match &self.state.account_id {
            Some(id) => id,
            None => {
                return "(choose an account)".to_owned();
            },
        };
        let ghost all = self.accounts.deep_view();
        let mut i: usize = 0;
        assert(all.skip(0) =~= all);
        while i < self.accounts.len()
            invariant
                i <= self.accounts@.len(),
                all == self.accounts.deep_view(),
                self@.from_label() == label_of(all.skip(i as int), id@),
            decreases self.accounts@.len() - i,
        {
            assert(all.skip(i as int).first() == self.accounts@[i as int].deep_view());
            if self.accounts[i].0 == *id {
                return self.accounts[i].1.clone();
            }
            assert(all.skip(i as int).drop_first() =~= all.skip(i + 1));
            i += 1;
        }
        "(choose an account)".to_owned()
    }

    /// Sends the message from the `i`-th account of the selector.
    pub fn choose_account(&mut self, i: usize)
        requires
            i < old(self).accounts@.len(),
        ensures
            final(self)@ == old(self)@.sent_from(i as int),
    {
        self.state.account_id = Some(self.accounts[i].0.clone());
    }

    /// Attaches a file. One without a name of its own is called `attachment`.
    pub fn attach(&mut self, filename: Option<String>, data: Vec<u8>)
        ensures
            final(self)@ == old(self)@.with_file(filename.deep_view(), data@),
    {
        let ghost held = self.state.attachments.deep_view();
        let name = match filename {
            Some(name) => name,
            None => "attachment".to_owned(),
        };
        assert(data.deep_view() =~= data@);
        let ghost item = (name@, data@);
        self.state.attachments.push((name, data));
        assert(self.state.attachments.deep_view() =~= held.push(item));
    }

    /// Reports a file that could not be read.
    pub fn attach_failed(&mut self, path: &str, error: &str)
        ensures
            final(self)@ == old(self)@.file_refused(path@, error@),
    {
        let mut message = "Could not read ".to_owned();
        message.append(path);
        message.append(": ");
        message.append(error);
        self.error = Some(message);
    }

    /// The `i`-th attachment's name and size.
    pub fn attachment_label(&self, i: usize) -> (r: String)
        requires
            i < self.state.attachments@.len(),
        ensures
            r@ == self@.file_text(i as int),
    {
        let mut r = self.state.attachments[i].0.clone();
        r.append(" (");
        r.append(files::format_size(self.state.attachments[i].1.len()).as_str());
        r.append(")");
        r
    }

    /// Takes the `i`-th attachment out.
    pub fn remove_attachment(&mut self, i: usize)
        requires
            i < old(self).state.attachments@.len(),
        ensures
            final(self)@ == old(self)@.without_file(i as int),
    {
        let ghost held = self.state.attachments.deep_view();
        self.state.attachments.remove(i);
        assert(self.state.attachments.deep_view() =~= held.remove(i as int));
    }

    /// Whether the caret goes into this field now; it goes there once.
    pub fn take_focus(&mut self, field: Focus) -> (r: bool)
        ensures
            r == (old(self)@.focus == Some(field)),
            final(self)@ == old(self)@.focus_asked(field),
    {
        let wanted = match self.focus {
            Some(f) => f == field,
            None => false,
        };
        if wanted {
            self.focus = None;
        }
        wanted
    }

    /// Ends a frame: if sending was asked for, the request is left for the main
    /// program and the previous error goes away.
    pub fn end_frame(&mut self, send: bool)
        ensures
            final(self)@ == old(self)@.frame_ended(send),
    {
        if send {
            self.send_requested = true;
            self.error = None;
        }
    }
}

// ── Laws ────────────────────────────────────────────────────────────────────

/// While a send is in flight neither the shortcut nor the action bar can ask
/// for another, and Discard asks before it finishes the window.
pub proof fn law_a_send_in_flight_is_guarded(w: WindowModel, press: Press, ctrl_enter: bool)
    requires
        w.sending,
    ensures
        w.is_dirty(),
        !w.shortcut_sends(ctrl_enter),
        !w.press_sends(press),
        !w.confirm_discard && !w.finished ==> !w.pressed(press).finished,
        w.discarded().confirm_discard,
        !w.finished ==> w.close_is_cancelled(true),
{
}

/// Closing a window that has something to lose never finishes it at once; it
/// takes a confirmed Discard.
pub proof fn law_closing_asks_first(w: WindowModel)
    requires
        w.is_dirty(),
        !w.finished,
    ensures
        !w.after_close_request(true).finished,
        w.after_close_request(true).confirm_discard,
        w.after_close_request(true).pressed(Press::ConfirmDiscard).finished,
        !w.after_close_request(true).pressed(Press::KeepEditing).finished,
{
}

/// A window that has just been opened has nothing to lose, closes at once, and
/// recording its draft does not change that.
pub proof fn law_a_fresh_window_is_clean(id: ComposeId, state: ComposeModel, focus: Focus, draft: i64)
    ensures
        !WindowModel::opened(id, state, focus).is_dirty(),
        WindowModel::opened(id, state, focus).after_close_request(true).finished,
        !WindowModel::opened(id, state, focus).with_draft(draft).is_dirty(),
{
}

/// Recording a draft never makes a clean window dirty.
pub proof fn law_saving_a_draft_does_not_dirty(w: WindowModel, draft: i64)
    requires
        !w.is_dirty(),
    ensures
        !w.with_draft(draft).is_dirty(),
{
}

/// An error unlocks the form, and starting a send clears the error.
pub proof fn law_errors_unlock_and_sends_clear(w: WindowModel, error: Text)
    ensures
        !w.with_error(error).sending,
        w.with_error(error).error == Some(error),
        w.with_error(error).with_sending(true).error is None,
        w.with_error(error).with_sending(true).sending,
{
}

} // verus!
