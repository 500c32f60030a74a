//! What the program does with the outcome of sends and with what the store of
//! outgoing mail and drafts answers; saving drafts, and quitting.

use vstd::prelude::*;
use vstd::string::*;
use crate::app;
use crate::app_outbox;
use crate::app_outbox::DRAFT_AUTOSAVE_INTERVAL;
use crate::app_outbox::OUTBOX_POLL_INTERVAL;
use crate::compose::{ComposeModel, ComposeState};
use crate::compose_window::{ComposeId, Focus, WindowModel};
use crate::events::{ImapCommand, ImapCommandModel};
use crate::imap::SpecialUse;
use crate::mailboxes;
use crate::state::{AppModel, DraftSummary, Effect, EffectModel, EsMailApp, OutboxItem, OutboxItemModel, QueueCommand, QueueCommandModel, QueueEvent, QueueEventModel, SmtpEvent, SmtpEventModel, WindowCommand};
use crate::text::Text;

verus! {

broadcast use {vstd::string::group_string_axioms, vstd::std_specs::hash::group_hash_axioms};

// ── How a send ended ────────────────────────────────────────────────────────

impl AppModel {
    /// A command to the store of outgoing mail and drafts.
    pub open spec fn queue(self, cmd: QueueCommandModel) -> AppModel {
        self.emit(EffectModel::Queue(cmd))
    }

    /// The draft an open window saves itself into is deleted.
    pub open spec fn draft_done(self, id: ComposeId) -> AppModel {
        if self.has_window(id) {
            match self.window(id).state.draft_id {
                Some(draft) => self.queue(QueueCommandModel::DeleteDraft { id: draft }),
                None => self,
            }
        } else {
            self
        }
    }

    /// An outbox row has been sent.
    pub open spec fn row_sent(self, id: ComposeId, row: i64) -> AppModel {
        AppModel {
            outbox_owner: self.outbox_owner.remove(id),
            outbox_in_flight: self.outbox_in_flight.remove(row),
            ..self.queue(QueueCommandModel::MarkOutboxSent { id: row })
        }
    }

    /// A copy of a sent message goes to the Sent mailbox of the account it was
    /// sent from.
    pub open spec fn sent_copy_saved(self, id: ComposeId, raw: Seq<u8>) -> AppModel {
        if self.sending_from.dom().contains(id) {
            let account = self.sending_from[id];
            (AppModel { sending_from: self.sending_from.remove(id), ..self }).imap_to(
                account,
                ImapCommandModel::Append {
                    mailbox: self.special_mailbox_for(
                        account,
                        SpecialUse::Sent,
                        app::SENT_MAILBOX@,
                    ),
                    raw,
                },
            )
        } else {
            self
        }
    }

    /// A message has been sent: its window closes, its draft and its outbox
    /// row are done, and a copy is saved.
    pub open spec fn on_sent(self, id: ComposeId, raw: Seq<u8>) -> AppModel {
        let s = self.draft_done(id).compose_closed(id);
        let s = if self.outbox_owner.dom().contains(id) {
            s.row_sent(id, self.outbox_owner[id])
        } else {
            s
        };
        s.with_status("Message sent"@).sent_copy_saved(id, raw)
    }

    /// A message that could not be sent is kept to be sent again: its outbox
    /// row is put off, or it gets one if its window is still there to tell
    /// what the message is.
    pub open spec fn failure_kept(self, id: ComposeId, error: Text) -> AppModel {
        if self.outbox_owner.dom().contains(id) {
            let row = self.outbox_owner[id];
            AppModel {
                outbox_in_flight: self.outbox_in_flight.remove(row),
                ..self.queue(QueueCommandModel::MarkOutboxFailed { id: row, error })
            }
        } else if self.has_window(id) {
            match self.window(id).state.account_id {
                Some(account_id) => self.queue(
                    QueueCommandModel::EnqueueOutbox {
                        id: None,
                        compose_id: id,
                        account_id,
                        compose: self.window(id).state,
                    },
                ),
                None => self,
            }
        } else {
            self
        }
    }

    /// A failed send is reported in its window, or in the main window if that
    /// has gone.
    pub open spec fn failure_shown(self, id: ComposeId, message: Text) -> AppModel {
        if self.has_window(id) {
            self.with_window(id, self.window(id).with_error(message)).emit(
                EffectModel::RepaintCompose(id),
            )
        } else {
            self.banner(message)
        }
    }

    /// A message could not be sent.
    pub open spec fn on_send_failed(self, id: ComposeId, error: Text) -> AppModel {
        (AppModel { sending_from: self.sending_from.remove(id), ..self }).failure_kept(
            id,
            error,
        ).failure_shown(id, "Send failed: "@ + error)
    }

    /// The program after a send has ended.
    pub open spec fn on_smtp(self, event: SmtpEventModel) -> AppModel {
        match event {
            SmtpEventModel::Sent { id, raw } => self.on_sent(id, raw),
            SmtpEventModel::Error { id, error } => self.on_send_failed(id, error),
        }
    }
}

impl EsMailApp {
    /// Asks something of the store of outgoing mail and drafts.
    pub fn send_queue(&mut self, cmd: QueueCommand)
        ensures
            final(self)@ == old(self)@.queue(cmd@),
    {
        self.emit(Effect::Queue(cmd));
    }

    /// Deletes the draft an open window saves itself into.
    fn finish_draft(&mut self, id: ComposeId)
        ensures
            final(self)@ == old(self)@.draft_done(id),
    {
        if let Some(i) = app_outbox::find_window(&self.compose_windows, id) {
            assert(self@.compose_windows[i as int] == self.compose_windows@[i as int]@);
            if let Some(draft) = self.compose_windows[i].state.draft_id {
                self.send_queue(QueueCommand::DeleteDraft { id: draft });
            }
        }
    }

    /// Marks an outbox row as sent.
    fn finish_row(&mut self, id: ComposeId, row: i64)
        ensures
            final(self)@ == old(self)@.row_sent(id, row),
    {
        self.send_queue(QueueCommand::MarkOutboxSent { id: row });
        self.disown(id);
        self.end_attempt(row);
    }

    /// Forgets which outbox row a message has.
    fn disown(&mut self, id: ComposeId)
        ensures
            final(self)@ == (AppModel {
                outbox_owner: old(self)@.outbox_owner.remove(id),
                ..old(self)@
            }),
    {
        let ghost held = self.outbox_owner@;
        let _ = self.outbox_owner.remove(&id);
        assert(self.outbox_owner@ =~= held.remove(id));
    }

    /// Saves a copy of a sent message.
    fn save_sent_copy(&mut self, id: ComposeId, raw: Vec<u8>)
        ensures
            final(self)@ == old(self)@.sent_copy_saved(id, raw@),
    {
        let sender = self.forget_sender(id);
        if let Some(account) = sender {
            let mailbox = self.special_use_mailbox_for(
                account.as_str(),
                SpecialUse::Sent,
                app::SENT_MAILBOX,
            );
            self.send_imap_to(account.as_str(), ImapCommand::Append { mailbox, raw });
        } else {
            assert(old(self)@.sending_from.remove(id) =~= old(self)@.sending_from);
        }
    }

    /// A message has been sent.
    fn on_sent(&mut self, id: ComposeId, raw: Vec<u8>)
        ensures
            final(self)@ == old(self)@.on_sent(id, raw@),
    {
        let row = self.row_of(id);
        self.finish_draft(id);
        self.close_compose(id);
        if let Some(row) = row {
            self.finish_row(id, row);
        }
        self.set_status("Message sent".to_owned());
        self.save_sent_copy(id, raw);
    }

    /// Keeps a message that could not be sent.
    fn keep_failure(&mut self, id: ComposeId, error: &str)
        ensures
            final(self)@ == old(self)@.failure_kept(id, error@),
    {
        match self.row_of(id) {
            Some(row) => {
                self.send_queue(QueueCommand::MarkOutboxFailed { id: row, error: error.to_owned() });
                self.end_attempt(row);
            },
            None => {
                if let Some(i) = app_outbox::find_window(&self.compose_windows, id) {
                    assert(self@.compose_windows[i as int] == self.compose_windows@[i as int]@);
                    if let Some(account_id) = self.compose_windows[i].account_id() {
                        let compose = self.compose_windows[i].snapshot();
                        self.send_queue(
                            QueueCommand::EnqueueOutbox {
                                id: None,
                                compose_id: id,
                                account_id,
                                compose,
                            },
                        );
                    }
                }
            },
        }
    }

    /// Reports a failed send.
    fn show_failure(&mut self, id: ComposeId, message: String)
        requires
            old(self)@.has_ids(1),
        ensures
            final(self)@ == old(self)@.failure_shown(id, message@),
    {
        match app_outbox::find_window(&self.compose_windows, id) {
            Some(i) => {
                self.window_error(i, message);
                self.emit(Effect::RepaintCompose(id));
            },
            None => self.push_banner(message),
        }
    }

    /// A message could not be sent.
    fn on_send_failed(&mut self, id: ComposeId, error: &str)
        requires
            old(self)@.has_ids(1),
        ensures
            final(self)@ == old(self)@.on_send_failed(id, error@),
    {
        let _ = self.forget_sender(id);
        self.keep_failure(id, error);
        let mut message = "Send failed: ".to_owned();
        message.append(error);
        self.show_failure(id, message);
    }

    /// Takes the outcome of one send.
    pub fn handle_smtp_event(&mut self, event: SmtpEvent)
        requires
            old(self)@.has_ids(1),
        ensures
            final(self)@ == old(self)@.on_smtp(event@),
    {
        match event {
            SmtpEvent::Sent { id, raw } => self.on_sent(id, raw),
            SmtpEvent::Error { id, error } => self.on_send_failed(id, error.as_str()),
        }
    }
}

// ── What the store answers ──────────────────────────────────────────────────

impl AppModel {
    /// Whether an open window owns an outbox row.
    pub open spec fn row_is_open(self, row: i64) -> bool {
        exists|i: int|
            0 <= i < self.compose_windows.len() && self.owns_row(
                (#[trigger] self.compose_windows[i]).id,
                row,
            )
    }

    /// Whether a message has an outbox row.
    pub open spec fn owns_row(self, id: ComposeId, row: i64) -> bool {
        self.outbox_owner.dom().contains(id) && self.outbox_owner[id] == row
    }

    /// An outbox row is sent again under a fresh id, unless a send of it is
    /// outstanding or a window that could send it at any moment is open. One
    /// whose account cannot send is put off.
    pub open spec fn retried(self, item: OutboxItemModel, ready: Seq<Text>) -> AppModel {
        if self.row_is_open(item.id) || self.outbox_in_flight.contains(item.id) {
            self
        } else {
            let id = (self.next_compose_id + 1) as u64;
            let s = AppModel { next_compose_id: id, ..self };
            if app_outbox::names(ready, item.account_id) {
                (AppModel { outbox_owner: s.outbox_owner.insert(id, item.id), ..s }).sending(
                    id,
                    item.account_id,
                    item.compose,
                )
            } else {
                s.queue(
                    QueueCommandModel::MarkOutboxFailed {
                        id: item.id,
                        error: "No SMTP password on file for this account"@,
                    },
                )
            }
        }
    }

    /// Several outbox rows are due.
    pub open spec fn all_retried(self, items: Seq<OutboxItemModel>, ready: Seq<Text>) -> AppModel
        decreases items.len(),
    {
        if items.len() == 0 {
            self
        } else {
            self.all_retried(items.drop_last(), ready).retried(items.last(), ready)
        }
    }

    /// A window has been saved as a draft.
    pub open spec fn draft_saved(self, id: i64, compose_id: ComposeId) -> AppModel {
        if self.has_window(compose_id) {
            self.with_window(compose_id, self.window(compose_id).with_draft(id))
        } else {
            self
        }
    }

    /// A draft is opened.
    pub open spec fn draft_opened(self, id: i64, compose: ComposeModel) -> AppModel {
        AppModel {
            drafts_window: None,
            ..self.compose_opened(ComposeModel { draft_id: Some(id), ..compose }, Focus::Body)
        }
    }

    /// The program after an answer of the store of outgoing mail and drafts.
    /// `ready` are the accounts that can send.
    pub open spec fn on_queue(self, event: QueueEventModel, ready: Seq<Text>) -> AppModel {
        match event {
            QueueEventModel::OutboxEnqueued { id, compose_id } => AppModel {
                outbox_owner: self.outbox_owner.insert(compose_id, id),
                ..self
            },
            QueueEventModel::OutboxDue { items } => self.all_retried(items, ready),
            QueueEventModel::OutboxList { items } => AppModel {
                outbox_window: Some(items),
                ..self
            },
            QueueEventModel::DraftSaved { id, compose_id } => self.draft_saved(id, compose_id),
            QueueEventModel::DraftList { items } => AppModel { drafts_window: Some(items), ..self },
            QueueEventModel::DraftLoaded { id, compose } => self.draft_opened(id, compose),
        }
    }

    /// Whether there are ids for what an answer of the store needs.
    pub open spec fn ids_for(self, event: QueueEventModel) -> bool {
        match event {
            QueueEventModel::OutboxDue { items } => self.has_ids(items.len()),
            _ => self.has_ids(1),
        }
    }
}

/// Retrying takes at most one id for each row.
proof fn lemma_retry_ids(s: AppModel, items: Seq<OutboxItemModel>, ready: Seq<Text>)
    requires
        s.has_ids(items.len()),
    ensures
        s.all_retried(items, ready).next_compose_id <= s.next_compose_id + items.len(),
    decreases items.len(),
{
    if items.len() > 0 {
        lemma_retry_ids(s, items.drop_last(), ready);
    }
}

impl EsMailApp {
    /// Whether an open window owns an outbox row.
    fn row_is_open(&self, row: i64) -> (r: bool)
        ensures
            r == self@.row_is_open(row),
    {
        let ghost s = self@;
        let mut i: usize = 0;
        while i < self.compose_windows.len()
            invariant
                i <= self.compose_windows@.len(),
                s == self@,
                s.compose_windows == self.compose_windows.deep_view(),
                forall|j: int|
                    0 <= j < i ==> !s.owns_row((#[trigger] s.compose_windows[j]).id, row),
            decreases self.compose_windows@.len() - i,
        {
            assert(s.compose_windows[i as int] == self.compose_windows@[i as int]@);
            if let Some(owned) = self.row_of(self.compose_windows[i].id) {
                if owned == row {
                    return true;
                }
            }
            i += 1;
        }
        false
    }

    /// Remembers which outbox row a message has.
    fn own(&mut self, id: ComposeId, row: i64)
        ensures
            final(self)@ == (AppModel {
                outbox_owner: old(self)@.outbox_owner.insert(id, row),
                ..old(self)@
            }),
    {
        let ghost held = self.outbox_owner@;
        self.outbox_owner.insert(id, row);
        assert(self.outbox_owner@ =~= held.insert(id, row));
    }

    /// A fresh id for a send without a window.
    fn fresh_compose_id(&mut self) -> (r: ComposeId)
        requires
            old(self)@.next_compose_id < u64::MAX,
        ensures
            final(self)@ == (AppModel {
                next_compose_id: (old(self)@.next_compose_id + 1) as u64,
                ..old(self)@
            }),
            r == final(self)@.next_compose_id,
    {
        self.next_compose_id = self.next_compose_id + 1;
        self.next_compose_id
    }

    /// Sends an outbox row again, unless something else may be sending it.
    fn retry(&mut self, item: OutboxItem, ready: &Vec<String>)
        requires
            old(self)@.next_compose_id < u64::MAX,
        ensures
            final(self)@ == old(self)@.retried(item@, ready.deep_view()),
    {
        if self.row_is_open(item.id) || self.outbox_in_flight.contains(&item.id) {
            return ;
        }
        let id: ComposeId = self.fresh_compose_id();
        if mailboxes::lists(ready, &item.account_id) {
            self.own(id, item.id);
            self.send(id, item.account_id, item.compose);
        } else {
            self.send_queue(
                QueueCommand::MarkOutboxFailed {
                    id: item.id,
                    error: "No SMTP password on file for this account".to_owned(),
                },
            );
        }
    }

    /// Sends the outbox rows that are due.
    fn retry_all(&mut self, items: Vec<OutboxItem>, ready: &Vec<String>)
        requires
            old(self)@.has_ids(items@.len()),
        ensures
            final(self)@ == old(self)@.all_retried(items.deep_view(), ready.deep_view()),
    {
        let ghost start = self@;
        let ghost all = items@;
        let ghost models = items.deep_view();
        let mut left = items;
        let ghost mut n: int = 0;
        assert(left@ =~= all.skip(0));
        assert(models.take(0) =~= seq![]);
        while left.len() > 0
            invariant
                0 <= n <= all.len(),
                models.len() == all.len(),
                forall|i: int| 0 <= i < all.len() ==> #[trigger] models[i] == all[i]@,
                left@ == all.skip(n),
                start.has_ids(all.len()),
                self@ == start.all_retried(models.take(n), ready.deep_view()),
            decreases left@.len(),
        {
            let item = left.remove(0);
            assert(item == all[n]);
            assert(left@ =~= all.skip(n + 1));
            assert(models.take(n + 1).drop_last() =~= models.take(n));
            assert(models.take(n + 1).last() == item@);
            proof {
                lemma_retry_ids(start, models.take(n), ready.deep_view());
            }
            self.retry(item, ready);
            proof {
                n = n + 1;
            }
        }
        assert(models.take(n) =~= models);
    }

    /// Records which draft a window saves itself into.
    fn set_window_draft(&mut self, id: i64, compose_id: ComposeId)
        ensures
            final(self)@ == old(self)@.draft_saved(id, compose_id),
    {
        if let Some(i) = app_outbox::find_window(&self.compose_windows, compose_id) {
            let ghost held = self.compose_windows.deep_view();
            let ghost new = held[i as int].with_draft(id);
            let window = &mut self.compose_windows[i];
            window.set_draft_id(id);
            assert(self.compose_windows.deep_view() =~= held.update(i as int, new));
        }
    }

    /// Opens a draft.
    fn open_draft(&mut self, id: i64, compose: ComposeState)
        requires
            old(self)@.has_ids(1),
        ensures
            final(self)@ == old(self)@.draft_opened(id, compose@),
    {
        let mut compose = compose;
        compose.draft_id = Some(id);
        self.open_compose(compose, Focus::Body);
        self.close_drafts();
    }

    /// Lists the outbox.
    fn list_outbox(&mut self, items: Vec<OutboxItem>)
        ensures
            final(self)@ == (AppModel { outbox_window: Some(items.deep_view()), ..old(self)@ }),
    {
        self.outbox_window = Some(items);
    }

    /// Lists the drafts.
    fn list_drafts(&mut self, items: Vec<DraftSummary>)
        ensures
            final(self)@ == (AppModel { drafts_window: Some(items.deep_view()), ..old(self)@ }),
    {
        self.drafts_window = Some(items);
    }

    /// Closes the list of drafts.
    pub fn close_drafts(&mut self)
        ensures
            final(self)@ == (AppModel { drafts_window: None, ..old(self)@ }),
    {
        self.drafts_window = None;
    }

    /// Closes the list of outgoing mail.
    pub fn close_outbox(&mut self)
        ensures
            final(self)@ == (AppModel { outbox_window: None, ..old(self)@ }),
    {
        self.outbox_window = None;
    }

    /// Whether there are ids for what an answer of the store needs.
    pub fn ids_for(&self, event: &QueueEvent) -> (r: bool)
        ensures
            r == self@.ids_for(event@),
    {
        match event {
            QueueEvent::OutboxDue { items } => self.ids_left(items.len() as u64),
            _ => self.ids_left(1),
        }
    }

    /// Takes one answer of the store of outgoing mail and drafts.
    pub fn handle_queue_event(&mut self, event: QueueEvent, ready: &Vec<String>)
        requires
            old(self)@.ids_for(event@),
        ensures
            final(self)@ == old(self)@.on_queue(event@, ready.deep_view()),
    {
        match event {
            QueueEvent::OutboxEnqueued { id, compose_id } => self.own(compose_id, id),
            QueueEvent::OutboxDue { items } => self.retry_all(items, ready),
            QueueEvent::OutboxList { items } => self.list_outbox(items),
            QueueEvent::DraftSaved { id, compose_id } => self.set_window_draft(id, compose_id),
            QueueEvent::DraftList { items } => self.list_drafts(items),
            QueueEvent::DraftLoaded { id, compose } => self.open_draft(id, compose),
        }
    }
}

// ── Saving what is being written ────────────────────────────────────────────

/// Whether there is anything in a message worth keeping.
pub open spec fn has_content(c: ComposeModel) -> bool {
    c.to.len() > 0 || c.cc.len() > 0 || c.bcc.len() > 0 || c.subject.len() > 0 || c.body.len() > 0
}

impl AppModel {
    /// Whether a window has gone long enough without saving itself.
    pub open spec fn autosave_due(self, id: ComposeId, now: u64) -> bool {
        self.compose_last_autosave.dom().contains(id) ==> app::elapsed(
            now,
            self.compose_last_autosave[id],
        ) >= DRAFT_AUTOSAVE_INTERVAL
    }

    /// A window that is due is saved as a draft, if there is anything in it.
    pub open spec fn autosaved(self, window: WindowModel, now: u64) -> AppModel {
        if !self.autosave_due(window.id, now) {
            self
        } else {
            let s = AppModel {
                compose_last_autosave: self.compose_last_autosave.insert(window.id, now),
                ..self
            };
            if has_content(window.state) {
                s.queue(
                    QueueCommandModel::SaveDraft {
                        id: window.state.draft_id,
                        compose_id: window.id,
                        account_id: window.state.account_id,
                        compose: window.state,
                    },
                )
            } else {
                s
            }
        }
    }

    /// The windows of a list that are due are saved.
    pub open spec fn all_autosaved(self, windows: Seq<WindowModel>, now: u64) -> AppModel
        decreases windows.len(),
    {
        if windows.len() == 0 {
            self
        } else {
            self.all_autosaved(windows.drop_last(), now).autosaved(windows.last(), now)
        }
    }

    /// The outbox is asked for what is due, if it has been left alone for long
    /// enough.
    pub open spec fn outbox_polled(self, now: u64) -> AppModel {
        if self.last_outbox_check matches Some(at) && app::elapsed(now, at) < OUTBOX_POLL_INTERVAL {
            self
        } else {
            (AppModel { last_outbox_check: Some(now), ..self }).queue(QueueCommandModel::DueOutbox)
        }
    }
}

/// Saving drafts leaves the windows as they are.
pub proof fn lemma_autosave_keeps_windows(s: AppModel, windows: Seq<WindowModel>, now: u64)
    ensures
        s.all_autosaved(windows, now).compose_windows == s.compose_windows,
    decreases windows.len(),
{
    if windows.len() > 0 {
        lemma_autosave_keeps_windows(s, windows.drop_last(), now);
    }
}

/// Whether there is anything in a message worth keeping.
fn worth_keeping(c: &ComposeState) -> (r: bool)
    ensures
        r == has_content(c@),
{
    !c.to.as_str().is_empty() || !c.cc.as_str().is_empty() || !c.bcc.as_str().is_empty()
        || !c.subject.as_str().is_empty() || !c.body.as_str().is_empty()
}

impl EsMailApp {
    /// Whether a window has gone long enough without saving itself.
    fn autosave_is_due(&self, id: ComposeId, now: u64) -> (r: bool)
        ensures
            r == self@.autosave_due(id, now),
    {
        match self.compose_last_autosave.get(&id) {
            Some(at) => app::elapsed_ms(now, *at) >= DRAFT_AUTOSAVE_INTERVAL,
            None => true,
        }
    }

    /// Notes when a window saved itself.
    fn note_autosave(&mut self, id: ComposeId, now: u64)
        ensures
            final(self)@ == (AppModel {
                compose_last_autosave: old(self)@.compose_last_autosave.insert(id, now),
                ..old(self)@
            }),
    {
        let ghost held = self.compose_last_autosave@;
        self.compose_last_autosave.insert(id, now);
        assert(self.compose_last_autosave@ =~= held.insert(id, now));
    }

    /// Saves one window as a draft, if it is due.
    fn autosave(&mut self, i: usize, now: u64)
        requires
            i < old(self).compose_windows@.len(),
        ensures
            final(self)@ == old(self)@.autosaved(old(self)@.compose_windows[i as int], now),
    {
        assert(self@.compose_windows[i as int] == self.compose_windows@[i as int]@);
        let id: ComposeId = self.compose_windows[i].id();
        if !self.autosave_is_due(id, now) {
            return ;
        }
        let compose = self.compose_windows[i].snapshot();
        let account_id = self.compose_windows[i].account_id();
        self.note_autosave(id, now);
        if worth_keeping(&compose) {
            self.send_queue(
                QueueCommand::SaveDraft { id: compose.draft_id, compose_id: id, account_id, compose },
            );
        }
    }

    /// Saves every open compose window that is due and has something in it.
    pub fn autosave_drafts(&mut self, now: u64)
        ensures
            final(self)@ == old(self)@.all_autosaved(old(self)@.compose_windows, now),
    {
        let ghost start = self@;
        let ghost all = self@.compose_windows;
        let n: usize = self.compose_windows.len();
        let mut i: usize = 0;
        assert(all.take(0) =~= seq![]);
        while i < n
            invariant
                i <= n,
                all.len() == n,
                all == start.compose_windows,
                self@ == start.all_autosaved(all.take(i as int), now),
                self@.compose_windows == all,
            decreases n - i,
        {
            proof {
                lemma_autosave_keeps_windows(start, all.take(i + 1), now);
                assert(all.take(i + 1).drop_last() =~= all.take(i as int));
            }
            self.autosave(i, now);
            i += 1;
        }
        assert(all.take(all.len() as int) =~= all);
    }

    /// Asks the outbox for what is due, if it has been left alone for long
    /// enough.
    pub fn poll_outbox(&mut self, now: u64)
        ensures
            final(self)@ == old(self)@.outbox_polled(now),
    {
        let recent = match self.last_outbox_check {
            Some(at) => app::elapsed_ms(now, at) < OUTBOX_POLL_INTERVAL,
            None => false,
        };
        if !recent {
            self.last_outbox_check = Some(now);
            self.send_queue(QueueCommand::DueOutbox);
        }
    }
}

// ── Quitting ────────────────────────────────────────────────────────────────

impl AppModel {
    /// Whether any compose window holds something that quitting would lose.
    pub open spec fn has_unsent(self) -> bool {
        exists|i: int|
            0 <= i < self.compose_windows.len() && (#[trigger] self.compose_windows[i]).is_dirty()
    }

    /// The main window comes forward.
    pub open spec fn shown(self) -> AppModel {
        self.emit(EffectModel::Window(WindowCommand::Show)).emit(
            EffectModel::Window(WindowCommand::Unminimize),
        ).emit(EffectModel::Window(WindowCommand::Focus))
    }

    /// The program exits.
    pub open spec fn exiting(self) -> AppModel {
        (AppModel { exit_requested: true, ..self }).emit(EffectModel::Window(WindowCommand::Close))
    }

    /// Quitting is asked for: it happens at once, or after a question if
    /// something is unsent.
    pub open spec fn quit_wanted(self) -> AppModel {
        if self.has_unsent() {
            (AppModel { confirm_quit: true, ..self }).shown()
        } else {
            self.exiting()
        }
    }

    /// The question whether to quit goes away once nothing is unsent any more.
    pub open spec fn quit_question(self) -> AppModel {
        AppModel { confirm_quit: self.confirm_quit && self.has_unsent(), ..self }
    }

    /// The question whether to quit is answered.
    pub open spec fn quit_answered(self, quit: bool) -> AppModel {
        let s = AppModel { confirm_quit: false, ..self };
        if quit {
            s.exiting()
        } else {
            s
        }
    }
}

impl EsMailApp {
    /// Whether any compose window holds something that quitting would lose.
    pub fn has_unsent_compose(&self) -> (r: bool)
        ensures
            r == self@.has_unsent(),
    {
        let ghost all = self@.compose_windows;
        let mut i: usize = 0;
        while i < self.compose_windows.len()
            invariant
                i <= self.compose_windows@.len(),
                all == self.compose_windows.deep_view(),
                all == self@.compose_windows,
                forall|j: int| 0 <= j < i ==> !(#[trigger] all[j]).is_dirty(),
            decreases self.compose_windows@.len() - i,
        {
            assert(all[i as int] == self.compose_windows@[i as int]@);
            if self.compose_windows[i].is_dirty() {
                return true;
            }
            i += 1;
        }
        false
    }

    /// Brings the main window forward.
    pub fn show_window(&mut self)
        ensures
            final(self)@ == old(self)@.shown(),
    {
        self.emit(Effect::Window(WindowCommand::Show));
        self.emit(Effect::Window(WindowCommand::Unminimize));
        self.emit(Effect::Window(WindowCommand::Focus));
    }

    /// Exits.
    pub fn exit(&mut self)
        ensures
            final(self)@ == old(self)@.exiting(),
    {
        self.exit_requested = true;
        self.emit(Effect::Window(WindowCommand::Close));
    }

    /// Quits, at once or after asking.
    pub fn request_quit(&mut self)
        ensures
            final(self)@ == old(self)@.quit_wanted(),
    {
        if self.has_unsent_compose() {
            self.confirm_quit = true;
            self.show_window();
        } else {
            self.exit();
        }
    }

    /// Whether to ask about quitting in this frame.
    pub fn quit_question(&mut self) -> (r: bool)
        ensures
            final(self)@ == old(self)@.quit_question(),
            r == final(self)@.confirm_quit,
    {
        if self.confirm_quit && !self.has_unsent_compose() {
            self.confirm_quit = false;
        }
        self.confirm_quit
    }

    /// Takes the answer to the question about quitting.
    pub fn answer_quit(&mut self, quit: bool)
        ensures
            final(self)@ == old(self)@.quit_answered(quit),
    {
        self.confirm_quit = false;
        if quit {
            self.exit();
        }
    }
}

} // verus!
