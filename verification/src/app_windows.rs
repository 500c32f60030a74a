//! The main window coming and going, the lists of drafts and outgoing mail,
//! and the texts around the message list.

use vstd::prelude::*;
use vstd::string::*;
use crate::compose;
use crate::compose::ComposeModel;
use crate::compose_window::Focus;
use crate::events::{ImapCommand, ImapCommandModel};
use crate::files;
use crate::imap::{Attachment, AttachmentModel, MailHeader, MailHeaderModel};
use crate::state::{AppModel, DraftSummary, DraftSummaryModel, Effect, EffectModel, EsMailApp, OutboxItem, OutboxItemModel, QueueCommand, QueueCommandModel, WindowCommand};
use crate::text;
use crate::text::Text;
use crate::tray::TrayAction;

verus! {

broadcast use vstd::string::group_string_axioms;

// ── Coming and going ────────────────────────────────────────────────────────

/// What a later launch of the program asks of this one.
#[derive(Debug, Clone, Copy, PartialEq, Eq, Structural)]
pub enum Request {
    /// Come forward.
    Show,
    /// Exit.
    Quit,
}

/// The mailbox that is watched for new mail unless another one is chosen.
pub const DEFAULT_WATCH_MAILBOX: &'static str = "INBOX";

impl AppModel {
    /// A later launch has left a request.
    pub open spec fn on_request(self, request: Request) -> AppModel {
        match request {
            Request::Show => self.shown(),
            Request::Quit => self.exiting(),
        }
    }

    /// A notice of new mail was clicked: the account it is about is opened at
    /// the mailbox that is watched.
    pub open spec fn on_toast(self, account: Text, watched: Option<Text>) -> AppModel {
        if self.has_account(account) {
            (AppModel { adding_account: false, ..self }).activated(
                account,
                match watched {
                    Some(mailbox) => mailbox,
                    None => DEFAULT_WATCH_MAILBOX@,
                },
            )
        } else {
            self
        }
    }

    /// The tray icon or its menu was used.
    pub open spec fn on_tray(self, action: TrayAction) -> AppModel {
        match action {
            TrayAction::Show => self.emit(EffectModel::Window(WindowCommand::Show)).emit(
                EffectModel::Window(WindowCommand::Focus),
            ),
            TrayAction::Quit => self.quit_wanted(),
        }
    }

    /// The close button was used where there is no tray icon to come back
    /// from: unsent messages are asked about first.
    pub open spec fn on_close_without_tray(self) -> AppModel {
        if !self.has_tray && !self.exit_requested && self.has_unsent() {
            self.emit(EffectModel::Window(WindowCommand::CancelClose)).quit_wanted()
        } else {
            self
        }
    }

    /// The close button was used where there is a tray icon: the window hides,
    /// unless the program is exiting.
    pub open spec fn on_close_with_tray(self) -> AppModel {
        if self.has_tray && !self.exit_requested {
            self.emit(EffectModel::Window(WindowCommand::CancelClose)).emit(
                EffectModel::Window(WindowCommand::Hide),
            )
        } else {
            self
        }
    }

    /// Whether a close request really closes the window.
    pub open spec fn is_closing(self) -> bool {
        self.exit_requested || (!self.has_tray && !self.has_unsent())
    }

    /// The window's place is saved once, when it really closes.
    pub open spec fn on_closing(self) -> AppModel {
        if self.is_closing() && !self.geometry_saved_on_close {
            (AppModel { geometry_saved_on_close: true, ..self }).emit(EffectModel::SaveGeometry)
        } else {
            self
        }
    }

    /// Whether the folder pane and the message list are shown, and not the
    /// form for a new account.
    pub open spec fn shows_mail(self) -> bool {
        self.accounts.len() > 0 && !self.adding_account
    }
}

impl EsMailApp {
    /// Takes a request of a later launch.
    pub fn handle_request(&mut self, request: Request)
        ensures
            final(self)@ == old(self)@.on_request(request),
    {
        match request {
            Request::Show => self.show_window(),
            Request::Quit => self.exit(),
        }
    }

    /// Takes a click on a notice of new mail.
    pub fn handle_toast_click(&mut self, account: &str, watched: Option<String>)
        requires
            old(self)@.has_ids(1),
        ensures
            final(self)@ == old(self)@.on_toast(account@, watched.deep_view()),
    {
        if crate::app::find_account(&self.accounts, account).is_some() {
            let mailbox = match watched {
                Some(mailbox) => mailbox,
                None => DEFAULT_WATCH_MAILBOX.to_owned(),
            };
            self.adding_account = false;
            self.activate(account, mailbox);
        }
    }

    /// Takes a use of the tray icon or its menu.
    pub fn handle_tray_action(&mut self, action: TrayAction)
        ensures
            final(self)@ == old(self)@.on_tray(action),
    {
        match action {
            TrayAction::Show => {
                self.emit(Effect::Window(WindowCommand::Show));
                self.emit(Effect::Window(WindowCommand::Focus));
            },
            TrayAction::Quit => self.request_quit(),
        }
    }

    /// Asks about unsent messages before a close that really closes.
    pub fn close_without_tray(&mut self)
        ensures
            final(self)@ == old(self)@.on_close_without_tray(),
    {
        if !self.has_tray && !self.exit_requested && self.has_unsent_compose() {
            self.emit(Effect::Window(WindowCommand::CancelClose));
            self.request_quit();
        }
    }

    /// Turns a close into hiding, where there is a tray icon.
    pub fn close_with_tray(&mut self)
        ensures
            final(self)@ == old(self)@.on_close_with_tray(),
    {
        if self.has_tray && !self.exit_requested {
            self.emit(Effect::Window(WindowCommand::CancelClose));
            self.emit(Effect::Window(WindowCommand::Hide));
        }
    }

    /// Saves the window's place once, when it really closes.
    pub fn note_closing(&mut self)
        ensures
            final(self)@ == old(self)@.on_closing(),
    {
        let closing = self.exit_requested || (!self.has_tray && !self.has_unsent_compose());
        if closing && !self.geometry_saved_on_close {
            self.geometry_saved_on_close = true;
            self.emit(Effect::SaveGeometry);
        }
    }

    /// Whether the folder pane and the message list are shown.
    pub fn shows_mail(&self) -> (r: bool)
        ensures
            r == self@.shows_mail(),
    {
        self.accounts.len() > 0 && !self.adding_account
    }

    /// Shows or leaves the form for a new account.
    pub fn set_adding_account(&mut self, adding: bool)
        ensures
            final(self)@ == old(self)@.with_form(adding),
    {
        self.adding_account = adding;
    }
}

// ── Drafts and outgoing mail ────────────────────────────────────────────────

/// Drafts without one.
pub open spec fn without_draft(items: Seq<DraftSummaryModel>, id: i64) -> Seq<DraftSummaryModel>
    decreases items.len(),
{
    if items.len() == 0 {
        items
    } else if items.last().id == id {
        without_draft(items.drop_last(), id)
    } else {
        without_draft(items.drop_last(), id).push(items.last())
    }
}

/// Outgoing mail without one message.
pub open spec fn without_item(items: Seq<OutboxItemModel>, id: i64) -> Seq<OutboxItemModel>
    decreases items.len(),
{
    if items.len() == 0 {
        items
    } else if items.last().id == id {
        without_item(items.drop_last(), id)
    } else {
        without_item(items.drop_last(), id).push(items.last())
    }
}

/// The position of the first message of the outgoing mail with an id, or -1.
pub open spec fn item_index(items: Seq<OutboxItemModel>, id: i64) -> int
    decreases items.len(),
{
    if items.len() == 0 {
        -1
    } else {
        let before = item_index(items.drop_last(), id);
        if before >= 0 {
            before
        } else if items.last().id == id {
            items.len() - 1
        } else {
            -1
        }
    }
}

/// A text, or what stands for an empty one.
pub open spec fn or_else(s: Text, other: Text) -> Text {
    if s.len() == 0 {
        other
    } else {
        s
    }
}

/// How a message is listed: its subject and whom it is for.
pub open spec fn listed_text(to: Text, subject: Text) -> Text {
    or_else(subject, "(no subject)"@) + " — "@ + or_else(to, "(no recipient)"@)
}

/// How often sending was tried, and what went wrong.
pub open spec fn retry_text(attempts: u32, last_error: Option<Text>) -> Option<Text> {
    if attempts == 0 {
        None
    } else {
        let tried = "retried "@ + text::decimal(attempts as nat) + " time(s)"@;
        match last_error {
            Some(error) => Some(tried + ": "@ + error),
            None => Some(tried),
        }
    }
}

impl AppModel {
    /// The list of drafts is asked for.
    pub open spec fn drafts_wanted(self) -> AppModel {
        (AppModel { drafts_window: Some(seq![]), ..self }).queue(QueueCommandModel::ListDrafts)
    }

    /// The list of outgoing mail is asked for.
    pub open spec fn outbox_wanted(self) -> AppModel {
        (AppModel { outbox_window: Some(seq![]), ..self }).queue(QueueCommandModel::ListOutbox)
    }

    /// A draft is deleted.
    pub open spec fn draft_deleted(self, id: i64) -> AppModel {
        let s = self.queue(QueueCommandModel::DeleteDraft { id });
        AppModel {
            drafts_window: match self.drafts_window {
                Some(items) => Some(without_draft(items, id)),
                None => None,
            },
            ..s
        }
    }

    /// A message of the outgoing mail is deleted.
    pub open spec fn item_deleted(self, id: i64) -> AppModel {
        let s = self.queue(QueueCommandModel::DeleteOutbox { id });
        AppModel {
            outbox_window: match self.outbox_window {
                Some(items) => Some(without_item(items, id)),
                None => None,
            },
            ..s
        }
    }

    /// A message of the outgoing mail is taken back to be edited, so that the
    /// copy that was queued is not sent as well.
    pub open spec fn item_edited(self, id: i64) -> AppModel {
        match self.outbox_window {
            Some(items) => {
                let i = item_index(items, id);
                if i >= 0 {
                    (AppModel { outbox_window: Some(items.remove(i)), ..self }).queue(
                        QueueCommandModel::DeleteOutbox { id },
                    ).compose_opened(
                        ComposeModel { account_id: Some(items[i].account_id), ..items[i].compose },
                        Focus::Body,
                    )
                } else {
                    self
                }
            },
            None => self,
        }
    }
}

/// A text, or what stands for an empty one.
fn text_or(s: &str, other: &str) -> (r: String)
    ensures
        r@ == or_else(s@, other@),
{
    if s.is_empty() {
        other.to_owned()
    } else {
        s.to_owned()
    }
}

/// How a message is listed: its subject and whom it is for.
pub fn listed_label(to: &str, subject: &str) -> (r: String)
    ensures
        r@ == listed_text(to@, subject@),
{
    let mut r = text_or(subject, "(no subject)");
    r.append(" — ");
    r.append(text_or(to, "(no recipient)").as_str());
    r
}

impl OutboxItem {
    /// How often sending was tried, and what went wrong.
    pub fn retry_detail(&self) -> (r: Option<String>)
        ensures
            r.deep_view() == retry_text(self@.attempts, self@.last_error),
    {
        if self.attempts == 0 {
            return None;
        }
        let mut r = "retried ".to_owned();
        r.append(text::to_decimal(self.attempts as u64).as_str());
        r.append(" time(s)");
        if let Some(error) = &self.last_error {
            r.append(": ");
            r.append(error.as_str());
        }
        Some(r)
    }
}

/// Takes a draft out of a list.
fn remove_draft(items: Vec<DraftSummary>, id: i64) -> (r: Vec<DraftSummary>)
    ensures
        r.deep_view() == without_draft(items.deep_view(), id),
{
    let ghost all = items@;
    let ghost models = items.deep_view();
    let mut left = items;
    let mut kept: Vec<DraftSummary> = Vec::new();
    let ghost mut n: int = 0;
    assert(left@ =~= all.skip(0));
    assert(kept.deep_view() =~= without_draft(models.take(0), id));
    while left.len() > 0
        invariant
            0 <= n <= all.len(),
            models.len() == all.len(),
            forall|i: int| 0 <= i < all.len() ==> #[trigger] models[i] == all[i]@,
            left@ == all.skip(n),
            kept.deep_view() == without_draft(models.take(n), id),
        decreases left@.len(),
    {
        let ghost held = kept.deep_view();
        let item = left.remove(0);
        assert(item == all[n]);
        assert(left@ =~= all.skip(n + 1));
        assert(models.take(n + 1).drop_last() =~= models.take(n));
        assert(models.take(n + 1).last() == item@);
        if item.id != id {
            kept.push(item);
            assert(kept.deep_view() =~= held.push(item@));
        }
        proof {
            n = n + 1;
        }
    }
    assert(models.take(n) =~= models);
    kept
}

/// Takes a message out of the outgoing mail.
fn remove_item(items: Vec<OutboxItem>, id: i64) -> (r: Vec<OutboxItem>)
    ensures
        r.deep_view() == without_item(items.deep_view(), id),
{
    let ghost all = items@;
    let ghost models = items.deep_view();
    let mut left = items;
    let mut kept: Vec<OutboxItem> = Vec::new();
    let ghost mut n: int = 0;
    assert(left@ =~= all.skip(0));
    assert(kept.deep_view() =~= without_item(models.take(0), id));
    while left.len() > 0
        invariant
            0 <= n <= all.len(),
            models.len() == all.len(),
            forall|i: int| 0 <= i < all.len() ==> #[trigger] models[i] == all[i]@,
            left@ == all.skip(n),
            kept.deep_view() == without_item(models.take(n), id),
        decreases left@.len(),
    {
        let ghost held = kept.deep_view();
        let item = left.remove(0);
        assert(item == all[n]);
        assert(left@ =~= all.skip(n + 1));
        assert(models.take(n + 1).drop_last() =~= models.take(n));
        assert(models.take(n + 1).last() == item@);
        if item.id != id {
            kept.push(item);
            assert(kept.deep_view() =~= held.push(item@));
        }
        proof {
            n = n + 1;
        }
    }
    assert(models.take(n) =~= models);
    kept
}

/// Once found among the first `n`, a message's position is the same among all.
proof fn lemma_item_index_stays(items: Seq<OutboxItemModel>, id: i64, n: int)
    requires
        0 <= n <= items.len(),
        item_index(items.take(n), id) >= 0,
    ensures
        item_index(items, id) == item_index(items.take(n), id),
    decreases items.len() - n,
{
    if n == items.len() {
        assert(items.take(n) =~= items);
    } else {
        assert(items.take(n + 1).drop_last() =~= items.take(n));
        lemma_item_index_stays(items, id, n + 1);
    }
}

/// The position of a message of the outgoing mail.
fn find_item(items: &Vec<OutboxItem>, id: i64) -> (r: Option<usize>)
    ensures
        match r {
            Some(i) => i < items@.len() && i == item_index(items.deep_view(), id),
            None => item_index(items.deep_view(), id) < 0,
        },
{
    let ghost all = items.deep_view();
    let mut i: usize = 0;
    while i < items.len()
        invariant
            i <= items@.len(),
            all == items.deep_view(),
            item_index(all.take(i as int), id) < 0,
        decreases items@.len() - i,
    {
        assert(all.take(i + 1).drop_last() =~= all.take(i as int));
        assert(all.take(i + 1).last() == items@[i as int]@);
        if items[i].id == id {
            proof {
                lemma_item_index_stays(all, id, i + 1);
            }
            return Some(i);
        }
        i += 1;
    }
    assert(all.take(all.len() as int) =~= all);
    None
}

impl EsMailApp {
    /// Opens the list of drafts.
    pub fn open_drafts(&mut self)
        ensures
            final(self)@ == old(self)@.drafts_wanted(),
    {
        let none: Vec<DraftSummary> = Vec::new();
        assert(none.deep_view() =~= seq![]);
        self.drafts_window = Some(none);
        self.send_queue(QueueCommand::ListDrafts);
    }

    /// Opens the list of outgoing mail.
    pub fn open_outbox(&mut self)
        ensures
            final(self)@ == old(self)@.outbox_wanted(),
    {
        let none: Vec<OutboxItem> = Vec::new();
        assert(none.deep_view() =~= seq![]);
        self.outbox_window = Some(none);
        self.send_queue(QueueCommand::ListOutbox);
    }

    /// Asks for a draft to be opened.
    pub fn load_draft(&mut self, id: i64)
        ensures
            final(self)@ == old(self)@.draft_wanted(id),
    {
        self.send_queue(QueueCommand::LoadDraft { id });
    }

    /// Deletes a draft.
    pub fn delete_draft(&mut self, id: i64)
        ensures
            final(self)@ == old(self)@.draft_deleted(id),
    {
        self.send_queue(QueueCommand::DeleteDraft { id });
        let mut items = None;
        std::mem::swap(&mut items, &mut self.drafts_window);
        if let Some(list) = items {
            self.drafts_window = Some(remove_draft(list, id));
        }
    }

    /// Deletes a message of the outgoing mail.
    pub fn delete_outbox_item(&mut self, id: i64)
        ensures
            final(self)@ == old(self)@.item_deleted(id),
    {
        self.send_queue(QueueCommand::DeleteOutbox { id });
        let mut items = None;
        std::mem::swap(&mut items, &mut self.outbox_window);
        if let Some(list) = items {
            self.outbox_window = Some(remove_item(list, id));
        }
    }

    /// Takes a message out of the list of outgoing mail.
    fn take_outbox_item(&mut self, id: i64) -> (r: Option<OutboxItem>)
        ensures
            match r {
                Some(item) => {
                    &&& old(self)@.outbox_window is Some
                    &&& ({
                        let items = old(self)@.outbox_window->0;
                        let i = item_index(items, id);
                        &&& 0 <= i < items.len()
                        &&& item@ == items[i]
                        &&& final(self)@ == (AppModel {
                            outbox_window: Some(items.remove(i)),
                            ..old(self)@
                        })
                    })
                },
                None => {
                    &&& old(self)@.outbox_window is Some ==> item_index(
                        old(self)@.outbox_window->0,
                        id,
                    ) < 0
                    &&& final(self)@ == old(self)@
                },
            },
    {
        let mut items = None;
        std::mem::swap(&mut items, &mut self.outbox_window);
        match items {
            Some(list) => {
                let mut list = list;
                let ghost models = list.deep_view();
                let found = find_item(&list, id);
                let r = match found {
                    Some(i) => {
                        let item = list.remove(i);
                        assert(list.deep_view() =~= models.remove(i as int));
                        Some(item)
                    },
                    None => None,
                };
                self.outbox_window = Some(list);
                r
            },
            None => None,
        }
    }

    /// Takes a message of the outgoing mail back to be edited.
    pub fn edit_outbox_item(&mut self, id: i64)
        requires
            old(self)@.has_ids(1),
        ensures
            final(self)@ == old(self)@.item_edited(id),
    {
        if let Some(item) = self.take_outbox_item(id) {
            self.send_queue(QueueCommand::DeleteOutbox { id });
            let account = Some(item.account_id);
            self.open_compose(item.compose.with_account(account), Focus::Body);
        }
    }
}

// ── Messages ────────────────────────────────────────────────────────────────

/// What a screen reader says of a message of the list.
pub open spec fn spoken_text(sender: Text, header: MailHeaderModel) -> Text {
    let state = if header.is_seen() {
        if header.is_flagged() {
            "Starred. "@
        } else {
            seq![]
        }
    } else if header.is_flagged() {
        "Unread, starred. "@
    } else {
        "Unread. "@
    };
    state + or_else(sender, "(unknown sender)"@) + ": "@ + or_else(
        header.subject,
        "(no subject)"@,
    ) + ". "@ + header.date
}

/// The sender of a message, as the list shows it.
pub fn sender_label(sender: &str) -> (r: String)
    ensures
        r@ == or_else(sender@, "(unknown sender)"@),
{
    text_or(sender, "(unknown sender)")
}

/// The subject of a message, as the list shows it.
pub fn subject_label(header: &MailHeader) -> (r: String)
    ensures
        r@ == or_else(header@.subject, "(no subject)"@),
{
    text_or(header.subject.as_str(), "(no subject)")
}

/// What a screen reader says of a message of the list.
pub fn spoken_label(sender: &str, header: &MailHeader) -> (r: String)
    ensures
        r@ == spoken_text(sender@, header@),
{
    let seen = header.is_seen();
    let flagged = header.is_flagged();
    let mut r = if seen {
        if flagged {
            "Starred. ".to_owned()
        } else {
            String::new()
        }
    } else if flagged {
        "Unread, starred. ".to_owned()
    } else {
        "Unread. ".to_owned()
    };
    proof {
        if seen && !flagged {
            assert(r@ =~= seq![]);
        }
    }
    r.append(sender_label(sender).as_str());
    r.append(": ");
    r.append(subject_label(header).as_str());
    r.append(". ");
    r.append(header.date.as_str());
    r
}

/// What is said of an attachment of the open message.
pub open spec fn attachment_text(attachment: AttachmentModel) -> Text {
    attachment.filename + " — "@ + attachment.mime_type + ", "@ + files::size_text(
        attachment.data.len(),
    )
}

/// What is said of an attachment of the open message.
pub fn attachment_label(attachment: &Attachment) -> (r: String)
    ensures
        r@ == attachment_text(attachment@),
{
    let mut r = attachment.filename.clone();
    r.append(" — ");
    r.append(attachment.mime_type.as_str());
    r.append(", ");
    r.append(files::format_size(attachment.data.len()).as_str());
    r
}

impl AppModel {
    /// What is written above the message list.
    pub open spec fn list_title(self) -> Text {
        if self.search_results is Some {
            "Search Results"@
        } else {
            self.selected_mailbox
        }
    }

    /// Where a search result lives, if results of all accounts are listed.
    pub open spec fn origin_text(self, i: int) -> Option<Text> {
        if self.search_results is Some && self.search_all_accounts && 0 <= i
            < self.search_origins.len() {
            Some(self.label(self.search_origins[i].0) + " · "@ + self.search_origins[i].1)
        } else {
            None
        }
    }

    /// Whether a message of the list on screen is selected.
    pub open spec fn is_selected(self, i: int) -> bool {
        let uid = self.shown_list()[i].uid;
        (self.search_results is None || self.in_open_context(i)) && (self.selected_uids.contains(
            uid,
        ) || self.selected_uid == Some(uid))
    }

    /// The menu entry that logs out of the account that is shown.
    pub open spec fn logout_text(self) -> Text {
        match self.active {
            Some(id) => "Logout "@ + self.label(id),
            None => "Logout"@,
        }
    }

    /// The open message is exported.
    pub open spec fn exported(self, uid: u32, path: Text) -> AppModel {
        self.with_status("Exporting message to "@ + path + "..."@).imap(
            ImapCommandModel::ExportMessage { mailbox: self.selected_mailbox, uid, path },
        )
    }

    /// The open mailbox is asked to be downloaded.
    pub open spec fn download_wanted(self) -> AppModel {
        self.imap(ImapCommandModel::BulkDownload { mailbox: self.selected_mailbox })
    }

    /// A draft is asked for, to be written on.
    pub open spec fn draft_wanted(self, id: i64) -> AppModel {
        self.queue(QueueCommandModel::LoadDraft { id })
    }

    /// The account form is shown or left.
    pub open spec fn with_form(self, adding: bool) -> AppModel {
        AppModel { adding_account: adding, ..self }
    }
}

impl EsMailApp {
    /// What is written above the message list.
    pub fn list_title(&self) -> (r: String)
        ensures
            r@ == self@.list_title(),
    {
        if self.search_results.is_some() {
            "Search Results".to_owned()
        } else {
            self.selected_mailbox.clone()
        }
    }

    /// Where a search result lives, if results of all accounts are listed.
    pub fn origin_label(&self, i: usize) -> (r: Option<String>)
        ensures
            r.deep_view() == self@.origin_text(i as int),
    {
        if self.search_results.is_some() && self.search_all_accounts && i
            < self.search_origins.len() {
            let origin = &self.search_origins[i];
            assert(self@.search_origins[i as int] == (origin.0@, origin.1@));
            let mut r = self.account_label(origin.0.as_str());
            r.append(" · ");
            r.append(origin.1.as_str());
            Some(r)
        } else {
            None
        }
    }

    /// Whether a message of the list on screen is selected.
    pub fn is_selected(&self, i: usize) -> (r: bool)
        requires
            i < self@.shown_list().len(),
        ensures
            r == self@.is_selected(i as int),
    {
        let uid: u32 = self.shown_uid(i);
        let here = self.search_results.is_none() || self.hit_is_in_open_context(i);
        let open = match self.selected_uid {
            Some(u) => u == uid,
            None => false,
        };
        here && (crate::selection::has_uid(&self.selected_uids, uid) || open)
    }

    /// The menu entry that logs out of the account that is shown.
    pub fn logout_label(&self) -> (r: String)
        ensures
            r@ == self@.logout_text(),
    {
        match &self.active {
            Some(id) => {
                let mut r = "Logout ".to_owned();
                r.append(self.account_label(id.as_str()).as_str());
                r
            },
            None => "Logout".to_owned(),
        }
    }

    /// Exports the open message to a file.
    pub fn export_message(&mut self, uid: u32, path: String)
        ensures
            final(self)@ == old(self)@.exported(uid, path@),
    {
        let mut status = "Exporting message to ".to_owned();
        status.append(path.as_str());
        status.append("...");
        self.set_status(status);
        let mailbox = self.selected_mailbox.clone();
        self.send_imap(ImapCommand::ExportMessage { mailbox, uid, path });
    }

    /// Downloads the open mailbox.
    pub fn download_mailbox(&mut self)
        ensures
            final(self)@ == old(self)@.download_wanted(),
    {
        let mailbox = self.selected_mailbox.clone();
        self.send_imap(ImapCommand::BulkDownload { mailbox });
    }
}

} // verus!
