//! What the program does with what its accounts tell it. Events that change
//! what is kept per account apply to the account they name; events about the
//! message list and the reading pane apply only while that account is shown.

use vstd::prelude::*;
use vstd::string::*;
use crate::app;
use crate::db::{DbCommand, DbCommandModel};
use crate::events::{ImapCommand, ImapCommandModel, ImapEvent, ImapEventModel, UnreadCounts};
use crate::html;
use crate::imap;
use crate::imap::{Attachment, AttachmentModel, MailHeader, MailHeaderModel, MailboxInfo, MailboxInfoModel, MailboxState};
use crate::mailboxes;
use crate::mailboxes::{MailboxRow, RowModel};
use crate::state::{AccountModel, AppModel, ConnState, ConnStateModel, Effect, EffectModel, EsMailApp};
use crate::text;
use crate::text::Text;

verus! {

broadcast use vstd::string::group_string_axioms;

// ── Connections ─────────────────────────────────────────────────────────────

impl AppModel {
    /// An account has connected. One that the form started is saved, and the
    /// form goes away. The first account to connect is shown.
    pub open spec fn on_connected(self, account: Text) -> AppModel {
        let i = self.index_of(account);
        let view = self.accounts[i];
        let s = self.with_account_at(
            i,
            AccountModel { state: ConnStateModel::Connected, pending_persist: false, ..view },
        );
        let s = if view.pending_persist {
            (AppModel { adding_account: false, ..s }).emit(EffectModel::PersistAccount(account))
        } else {
            s
        };
        let s = s.with_status("Connected: "@ + view.label).imap_to(
            account,
            ImapCommandModel::FetchMailboxes,
        );
        if self.active is None {
            s.activated(account, "INBOX"@)
        } else if self.is_active(account) {
            s.headers_wanted(s.selected_mailbox, 1)
        } else {
            s
        }
    }

    /// An account has lost its connection and is reconnecting.
    pub open spec fn on_disconnected(self, account: Text) -> AppModel {
        let i = self.index_of(account);
        let s = self.with_account_at(
            i,
            AccountModel { state: ConnStateModel::Disconnected, ..self.accounts[i] },
        );
        if self.is_active(account) {
            s.with_status("Connection lost, reconnecting..."@)
        } else {
            s
        }
    }

    /// Something went wrong with an account. One that was not connected is not
    /// going to recover by itself.
    pub open spec fn on_error(self, account: Text, error: Text) -> AppModel {
        let i = self.index_of(account);
        let view = self.accounts[i];
        let s = if view.state is Connecting || view.state is Disconnected {
            self.with_account_at(i, AccountModel { state: ConnStateModel::Failed(error), ..view })
        } else {
            self
        };
        s.account_banner(account, "IMAP error: "@ + error)
    }
}

impl EsMailApp {
    /// Sets where an account's connection stands.
    fn set_conn_state(&mut self, i: usize, state: ConnState, pending_persist: bool)
        requires
            i < old(self).accounts@.len(),
        ensures
            final(self)@ == old(self)@.with_account_at(
                i as int,
                AccountModel { state: state@, pending_persist, ..old(self)@.accounts[i as int] },
            ),
    {
        let ghost held = self.accounts.deep_view();
        let ghost st = state@;
        let view = &mut self.accounts[i];
        view.state = state;
        view.pending_persist = pending_persist;
        proof {
            let new = AccountModel { state: st, pending_persist, ..held[i as int] };
            assert(self.accounts@[i as int]@ =~= new);
            assert(self.accounts.deep_view() =~= held.update(i as int, new));
        }
    }

    /// Closes the form for a new account.
    fn close_form(&mut self)
        ensures
            final(self)@ == (AppModel { adding_account: false, ..old(self)@ }),
    {
        self.adding_account = false;
    }

    /// An account has connected.
    fn on_connected(&mut self, account: &str, i: usize)
        requires
            old(self)@.has_ids(1),
            old(self)@.index_of(account@) == i < old(self).accounts@.len(),
        ensures
            final(self)@ == old(self)@.on_connected(account@),
    {
        let ghost start = self@;
        let was_active = self.shows(account);
        let nothing_shown = self.active.is_none();
        let from_form = self.accounts[i].pending_persist;
        let mut status = "Connected: ".to_owned();
        status.append(self.accounts[i].label.as_str());
        assert(start.accounts[i as int] == self.accounts@[i as int]@);
        self.set_conn_state(i, ConnState::Connected, false);
        proof {
            app::lemma_account_index_update(
                start.accounts,
                i as int,
                self@.accounts[i as int],
                account@,
            );
        }
        if from_form {
            self.close_form();
            self.emit(Effect::PersistAccount(account.to_owned()));
        }
        self.set_status(status);
        self.send_imap_to(account, ImapCommand::FetchMailboxes);
        if nothing_shown {
            self.activate(account, "INBOX".to_owned());
        } else if was_active {
            let mailbox = self.selected_mailbox.clone();
            self.fetch_headers(mailbox, 1);
        }
    }

    /// Whether the message list shows this account.
    pub fn shows(&self, account: &str) -> (r: bool)
        ensures
            r == self@.is_active(account@),
    {
        match &self.active {
            Some(a) => text::same(a.as_str(), account),
            None => false,
        }
    }

    /// An account has lost its connection.
    fn on_disconnected(&mut self, account: &str, i: usize)
        requires
            old(self)@.index_of(account@) == i < old(self).accounts@.len(),
        ensures
            final(self)@ == old(self)@.on_disconnected(account@),
    {
        let ghost start = self@;
        assert(start.accounts[i as int] == self.accounts@[i as int]@);
        let pending = self.accounts[i].pending_persist;
        let shown = self.shows(account);
        self.set_conn_state(i, ConnState::Disconnected, pending);
        if shown {
            self.set_status("Connection lost, reconnecting...".to_owned());
        }
    }

    /// Something went wrong with an account.
    fn on_error(&mut self, account: &str, i: usize, error: String)
        requires
            old(self)@.has_ids(1),
            old(self)@.index_of(account@) == i < old(self).accounts@.len(),
        ensures
            final(self)@ == old(self)@.on_error(account@, error@),
    {
        let ghost start = self@;
        assert(start.accounts[i as int] == self.accounts@[i as int]@);
        let mut message = "IMAP error: ".to_owned();
        message.append(error.as_str());
        let pending = self.accounts[i].pending_persist;
        let lost = match &self.accounts[i].state {
            ConnState::Connecting => true,
            ConnState::Disconnected => true,
            _ => false,
        };
        if lost {
            self.set_conn_state(i, ConnState::Failed(error), pending);
        }
        self.push_account_banner(account, message);
    }
}

// ── Mailboxes and counts ────────────────────────────────────────────────────

/// The names of listed mailboxes.
pub open spec fn names_of(list: Seq<MailboxInfoModel>) -> Seq<Text> {
    Seq::new(list.len(), |i: int| list[i].name)
}

/// The mailboxes of a folder list that can be selected.
pub open spec fn row_names(rows: Seq<RowModel>) -> Seq<Text>
    decreases rows.len(),
{
    if rows.len() == 0 {
        seq![]
    } else {
        match rows.last().full_name {
            Some(name) => row_names(rows.drop_last()).push(name),
            None => row_names(rows.drop_last()),
        }
    }
}

impl AppModel {
    /// An account's mailboxes have been listed: its folder tree is made anew
    /// and the unread messages are to be counted.
    pub open spec fn on_mailboxes(self, account: Text, list: Seq<MailboxInfoModel>) -> AppModel {
        let i = self.index_of(account);
        self.with_account_at(
            i,
            AccountModel {
                mailbox_rows: mailboxes::rows_of(mailboxes::tree_of(list), 0, None),
                ..self.accounts[i]
            },
        ).imap_to(account, ImapCommandModel::FetchUnreadCounts { mailboxes: names_of(list) })
    }

    /// An account has new mail: its unread messages are to be counted again.
    pub open spec fn on_new_headers(self, account: Text) -> AppModel {
        let names = row_names(self.account(account).mailbox_rows);
        if names.len() == 0 {
            self
        } else {
            self.imap_to(account, ImapCommandModel::FetchUnreadCounts { mailboxes: names })
        }
    }

    /// An account's unread messages have been counted.
    pub open spec fn on_unread_counts(self, account: Text, counts: Map<Text, u32>) -> AppModel {
        let i = self.index_of(account);
        self.with_account_at(i, AccountModel { unread_counts: counts, ..self.accounts[i] })
    }
}

/// The names of listed mailboxes.
fn names(list: &Vec<MailboxInfo>) -> (r: Vec<String>)
    ensures
        r.deep_view() == names_of(list.deep_view()),
{
    let ghost all = names_of(list.deep_view());
    let mut r: Vec<String> = Vec::new();
    let mut i: usize = 0;
    assert(r.deep_view() =~= all.take(0));
    while i < list.len()
        invariant
            i <= list@.len(),
            all == names_of(list.deep_view()),
            r.deep_view() == all.take(i as int),
        decreases list@.len() - i,
    {
        let ghost held = r.deep_view();
        r.push(list[i].name.clone());
        assert(r.deep_view() =~= held.push(all[i as int]));
        assert(all.take(i + 1) =~= held.push(all[i as int]));
        i += 1;
    }
    assert(all.take(all.len() as int) =~= all);
    r
}

/// The mailboxes of a folder list that can be selected.
pub fn mailbox_names(rows: &Vec<MailboxRow>) -> (r: Vec<String>)
    ensures
        r.deep_view() == row_names(rows.deep_view()),
{
    let ghost all = rows.deep_view();
    let mut r: Vec<String> = Vec::new();
    let mut i: usize = 0;
    assert(r.deep_view() =~= row_names(all.take(0)));
    while i < rows.len()
        invariant
            i <= rows@.len(),
            all == rows.deep_view(),
            r.deep_view() == row_names(all.take(i as int)),
        decreases rows@.len() - i,
    {
        let ghost held = r.deep_view();
        assert(all.take(i + 1).drop_last() =~= all.take(i as int));
        assert(all.take(i + 1).last() == rows@[i as int]@);
        if let Some(name) = &rows[i].full_name {
            r.push(name.clone());
            assert(r.deep_view() =~= held.push(name@));
        }
        i += 1;
    }
    assert(all.take(all.len() as int) =~= all);
    r
}

impl EsMailApp {
    /// Sets an account's folder rows.
    fn set_rows(&mut self, i: usize, rows: Vec<MailboxRow>)
        requires
            i < old(self).accounts@.len(),
        ensures
            final(self)@ == old(self)@.with_account_at(
                i as int,
                AccountModel { mailbox_rows: rows.deep_view(), ..old(self)@.accounts[i as int] },
            ),
    {
        let ghost held = self.accounts.deep_view();
        let ghost rm = rows.deep_view();
        let view = &mut self.accounts[i];
        view.mailbox_rows = rows;
        proof {
            let new = AccountModel { mailbox_rows: rm, ..held[i as int] };
            assert(self.accounts@[i as int]@ =~= new);
            assert(self.accounts.deep_view() =~= held.update(i as int, new));
        }
    }

    /// Sets an account's unread counts.
    fn set_counts(&mut self, i: usize, counts: UnreadCounts)
        requires
            i < old(self).accounts@.len(),
        ensures
            final(self)@ == old(self)@.with_account_at(
                i as int,
                AccountModel { unread_counts: counts@, ..old(self)@.accounts[i as int] },
            ),
    {
        let ghost held = self.accounts.deep_view();
        let ghost cm = counts@;
        let view = &mut self.accounts[i];
        view.unread_counts = counts;
        proof {
            let new = AccountModel { unread_counts: cm, ..held[i as int] };
            assert(self.accounts@[i as int]@ =~= new);
            assert(self.accounts.deep_view() =~= held.update(i as int, new));
        }
    }

    /// Sets one unread count of an account.
    pub(crate) fn set_count(&mut self, i: usize, mailbox: &str, count: u32)
        requires
            i < old(self).accounts@.len(),
        ensures
            final(self)@ == old(self)@.with_account_at(
                i as int,
                AccountModel {
                    unread_counts: old(self)@.accounts[i as int].unread_counts.insert(
                        mailbox@,
                        count,
                    ),
                    ..old(self)@.accounts[i as int]
                },
            ),
    {
        let ghost held = self.accounts.deep_view();
        let view = &mut self.accounts[i];
        view.unread_counts.set(mailbox, count);
        proof {
            let new = AccountModel {
                unread_counts: held[i as int].unread_counts.insert(mailbox@, count),
                ..held[i as int]
            };
            assert(self.accounts@[i as int]@ =~= new);
            assert(self.accounts.deep_view() =~= held.update(i as int, new));
        }
    }

    /// An account's mailboxes have been listed.
    fn on_mailboxes(&mut self, account: &str, i: usize, list: Vec<MailboxInfo>)
        requires
            old(self)@.index_of(account@) == i < old(self).accounts@.len(),
        ensures
            final(self)@ == old(self)@.on_mailboxes(account@, list.deep_view()),
    {
        let ghost start = self@;
        let wanted = names(&list);
        let infos = list.as_slice();
        assert(infos.deep_view() =~= list.deep_view());
        let tree = mailboxes::mailbox_tree(infos);
        let rows = mailboxes::flatten_tree(tree.as_slice());
        self.set_rows(i, rows);
        proof {
            app::lemma_account_index_update(
                start.accounts,
                i as int,
                self@.accounts[i as int],
                account@,
            );
        }
        self.send_imap_to(account, ImapCommand::FetchUnreadCounts { mailboxes: wanted });
    }

    /// An account has new mail.
    fn on_new_headers(&mut self, account: &str, i: usize)
        requires
            old(self)@.index_of(account@) == i < old(self).accounts@.len(),
        ensures
            final(self)@ == old(self)@.on_new_headers(account@),
    {
        assert(self@.accounts[i as int] == self.accounts@[i as int]@);
        let wanted = mailbox_names(&self.accounts[i].mailbox_rows);
        if wanted.len() > 0 {
            self.send_imap_to(account, ImapCommand::FetchUnreadCounts { mailboxes: wanted });
        }
    }
}

// ── The message list and the reading pane ───────────────────────────────────

impl AppModel {
    /// A page of headers has come. It is shown if it is the one that is still
    /// wanted; the cache's bookkeeping is brought up to date either way.
    pub open spec fn on_headers(
        self,
        account: Text,
        mailbox: Text,
        headers: Seq<MailHeaderModel>,
        page: u32,
        total_pages: u32,
        req_id: u64,
        state: MailboxState,
    ) -> AppModel {
        let s = if self.is_active(account) && req_id == self.current_headers_req && mailbox
            == self.selected_mailbox {
            (AppModel { headers, current_page: page, total_pages, ..self }).with_status(
                page_text(page, total_pages),
            )
        } else {
            self
        };
        s.emit(
            EffectModel::Db(
                DbCommandModel::ReportMailboxState {
                    account_id: account,
                    mailbox,
                    uid_validity: state.uid_validity,
                    uid_next: state.uid_next,
                },
            ),
        )
    }

    /// Whether a body, or the failure to get it, is the one still wanted.
    pub open spec fn wants_body(self, account: Text, uid: u32, req_id: u64) -> bool {
        self.is_active(account) && req_id == self.current_body_req && self.selected_uid == Some(uid)
    }

    /// A page is shown and kept as the open message's text.
    pub open spec fn text_shown(self, page: Text) -> AppModel {
        (AppModel { current_message_html: page, ..self }).emit(EffectModel::ShowPage(page))
    }

    /// A body has come. It is shown if it is the one that is still wanted.
    pub open spec fn on_body(
        self,
        account: Text,
        uid: u32,
        page: Text,
        attachments: Seq<AttachmentModel>,
        req_id: u64,
    ) -> AppModel {
        if self.wants_body(account, uid, req_id) {
            AppModel { current_attachments: attachments, ..self.text_shown(page) }
        } else {
            self
        }
    }

    /// A body could not be had. If it is the one that is still wanted, the
    /// reading pane says so.
    pub open spec fn on_body_failed(
        self,
        account: Text,
        uid: u32,
        req_id: u64,
        error: Text,
    ) -> AppModel {
        let s = if self.wants_body(account, uid, req_id) {
            self.text_shown(html::failure_page(error))
        } else {
            self
        };
        s.account_banner(account, "Could not load message: "@ + error)
    }

    /// A mailbox is being downloaded.
    pub open spec fn on_progress(self, account: Text, current: u32, total: u32) -> AppModel {
        if !self.is_active(account) {
            self
        } else if current == total {
            (AppModel { download_progress: None, ..self }).with_status("Download complete"@)
        } else {
            AppModel { download_progress: Some((current, total)), ..self }
        }
    }
}

/// Which page of how many is shown.
pub open spec fn page_text(page: u32, total_pages: u32) -> Text {
    "Page "@ + text::decimal(page as nat) + " of "@ + text::decimal(total_pages as nat)
}

/// Which page of how many is shown.
pub fn page_label(page: u32, total_pages: u32) -> (r: String)
    ensures
        r@ == page_text(page, total_pages),
{
    let mut r = "Page ".to_owned();
    r.append(text::to_decimal(page as u64).as_str());
    r.append(" of ");
    r.append(text::to_decimal(total_pages as u64).as_str());
    r
}

impl EsMailApp {
    /// Lists a page of headers.
    fn list_headers(&mut self, headers: Vec<MailHeader>, page: u32, total_pages: u32)
        ensures
            final(self)@ == (AppModel {
                headers: headers.deep_view(),
                current_page: page,
                total_pages,
                ..old(self)@
            }).with_status(page_text(page, total_pages)),
    {
        self.headers = headers;
        self.current_page = page;
        self.total_pages = total_pages;
        self.set_status(page_label(page, total_pages));
    }

    /// A page of headers has come.
    fn on_headers(
        &mut self,
        account: &str,
        mailbox: String,
        headers: Vec<MailHeader>,
        page: u32,
        total_pages: u32,
        req_id: u64,
        state: MailboxState,
    )
        ensures
            final(self)@ == old(self)@.on_headers(
                account@,
                mailbox@,
                headers.deep_view(),
                page,
                total_pages,
                req_id,
                state,
            ),
    {
        if self.shows(account) && req_id == self.current_headers_req && mailbox
            == self.selected_mailbox {
            self.list_headers(headers, page, total_pages);
        }
        self.emit(
            Effect::Db(
                DbCommand::ReportMailboxState {
                    account_id: account.to_owned(),
                    mailbox,
                    uid_validity: state.uid_validity,
                    uid_next: state.uid_next,
                },
            ),
        );
    }

    /// Whether a body, or the failure to get it, is the one still wanted.
    fn wants_body(&self, account: &str, uid: u32, req_id: u64) -> (r: bool)
        ensures
            r == self@.wants_body(account@, uid, req_id),
    {
        let open = match self.selected_uid {
            Some(u) => u == uid,
            None => false,
        };
        self.shows(account) && req_id == self.current_body_req && open
    }

    /// Shows a page and keeps it as the open message's text.
    pub fn show_text(&mut self, page: String)
        ensures
            final(self)@ == old(self)@.text_shown(page@),
    {
        self.current_message_html = page.clone();
        self.show_page(page);
    }

    /// Sets the open message's attachments.
    pub fn set_attachments(&mut self, attachments: Vec<Attachment>)
        ensures
            final(self)@ == (AppModel {
                current_attachments: attachments.deep_view(),
                ..old(self)@
            }),
    {
        self.current_attachments = attachments;
    }

    /// A body has come.
    fn on_body(
        &mut self,
        account: &str,
        uid: u32,
        page: String,
        attachments: Vec<Attachment>,
        req_id: u64,
    )
        ensures
            final(self)@ == old(self)@.on_body(
                account@,
                uid,
                page@,
                attachments.deep_view(),
                req_id,
            ),
    {
        if self.wants_body(account, uid, req_id) {
            self.show_text(page);
            self.set_attachments(attachments);
        }
    }

    /// A body could not be had.
    fn on_body_failed(&mut self, account: &str, uid: u32, req_id: u64, error: &str)
        requires
            old(self)@.has_ids(1),
        ensures
            final(self)@ == old(self)@.on_body_failed(account@, uid, req_id, error@),
    {
        if self.wants_body(account, uid, req_id) {
            self.show_text(html::load_failure_page(error));
        }
        let mut message = "Could not load message: ".to_owned();
        message.append(error);
        self.push_account_banner(account, message);
    }

    /// A mailbox is being downloaded.
    fn on_progress(&mut self, account: &str, current: u32, total: u32)
        ensures
            final(self)@ == old(self)@.on_progress(account@, current, total),
    {
        if self.shows(account) {
            if current == total {
                self.download_progress = None;
                self.set_status("Download complete".to_owned());
            } else {
                self.download_progress = Some((current, total));
            }
        }
    }
}

// ── All events ──────────────────────────────────────────────────────────────

impl AppModel {
    /// Whether an event can be counted.
    pub open spec fn event_fits(self, account: Text, event: ImapEventModel) -> bool {
        match event {
            ImapEventModel::FlagsUpdated { mailbox, uid, flags, req_id } => self.flags_fit(
                account,
                mailbox,
                uid,
                flags,
            ),
            ImapEventModel::Moved { mailbox, uid, dest, req_id } => self.move_fits(
                account,
                mailbox,
                uid,
                dest,
            ),
            _ => true,
        }
    }

    /// The program after an event of one of its accounts.
    pub open spec fn on_account_event(self, account: Text, event: ImapEventModel) -> AppModel {
        match event {
            ImapEventModel::Connected => self.on_connected(account),
            ImapEventModel::Disconnected => self.on_disconnected(account),
            ImapEventModel::Error(error) => self.on_error(account, error),
            ImapEventModel::Mailboxes(list) => self.on_mailboxes(account, list),
            ImapEventModel::Headers { mailbox, headers, page, total_pages, req_id, mailbox_state } =>
                self.on_headers(account, mailbox, headers, page, total_pages, req_id, mailbox_state),
            ImapEventModel::Body { uid, html, attachments, req_id } => self.on_body(
                account,
                uid,
                html,
                attachments,
                req_id,
            ),
            ImapEventModel::BodyFailed { uid, req_id, error } => self.on_body_failed(
                account,
                uid,
                req_id,
                error,
            ),
            ImapEventModel::DownloadProgress { current, total } => self.on_progress(
                account,
                current,
                total,
            ),
            ImapEventModel::Exported { path } => self.with_status("Exported message to "@ + path),
            ImapEventModel::ExportFailed { error } => self.account_banner(
                account,
                "Could not export message: "@ + error,
            ),
            ImapEventModel::MailData { mailbox, header, body, attachments } => self.emit(
                EffectModel::Db(
                    DbCommandModel::IndexMail {
                        account_id: account,
                        mailbox,
                        header,
                        body,
                        attachments,
                    },
                ),
            ),
            ImapEventModel::MailboxPolled { mailbox, state } => self,
            ImapEventModel::NewHeaders { mailbox, headers } => self.on_new_headers(account),
            ImapEventModel::HeadersFrom { mailbox, headers } => self.emit(
                EffectModel::Db(
                    DbCommandModel::IndexHeaders { account_id: account, mailbox, headers },
                ),
            ),
            ImapEventModel::Appended { mailbox } => self,
            ImapEventModel::AppendFailed { mailbox, error } => self.account_banner(
                account,
                append_failure(mailbox, error),
            ),
            ImapEventModel::PollFailed(error) => self,
            ImapEventModel::FlagsUpdated { mailbox, uid, flags, req_id } => self.on_flags_updated(
                account,
                mailbox,
                uid,
                flags,
            ),
            ImapEventModel::FlagsUpdateFailed { mailbox, uid, error, req_id } =>
                self.account_banner(
                account,
                message_failure("Could not update flags on message "@, uid, error),
            ),
            ImapEventModel::Moved { mailbox, uid, dest, req_id } => self.on_moved(
                account,
                mailbox,
                uid,
                dest,
            ),
            ImapEventModel::MoveFailed { mailbox, uid, error, req_id } => self.account_banner(
                account,
                message_failure("Could not move message "@, uid, error),
            ),
            ImapEventModel::UnreadCounts(counts) => self.on_unread_counts(account, counts),
        }
    }

    /// The program after an event. One of an account that has been removed is
    /// ignored.
    pub open spec fn on_imap(self, account: Text, event: ImapEventModel) -> AppModel {
        if self.has_account(account) {
            self.on_account_event(account, event)
        } else {
            self
        }
    }
}

/// The notice that a sent message could not be saved.
pub open spec fn append_failure(mailbox: Text, error: Text) -> Text {
    "Sent, but could not save a copy to "@ + mailbox + ": "@ + error
}

/// A notice about one message.
pub open spec fn message_failure(what: Text, uid: u32, error: Text) -> Text {
    what + text::decimal(uid as nat) + ": "@ + error
}

/// Two texts, one behind the other.
fn joined(a: &str, b: &str) -> (r: String)
    ensures
        r@ == a@ + b@,
{
    let mut r = a.to_owned();
    r.append(b);
    r
}

/// A notice about one message.
fn message_notice(what: &str, uid: u32, error: &str) -> (r: String)
    ensures
        r@ == message_failure(what@, uid, error@),
{
    let mut r = what.to_owned();
    r.append(text::to_decimal(uid as u64).as_str());
    r.append(": ");
    r.append(error);
    r
}

/// The notice that a sent message could not be saved.
fn append_notice(mailbox: &str, error: &str) -> (r: String)
    ensures
        r@ == append_failure(mailbox@, error@),
{
    let mut r = "Sent, but could not save a copy to ".to_owned();
    r.append(mailbox);
    r.append(": ");
    r.append(error);
    r
}

impl EsMailApp {
    /// Whether an event can be counted.
    pub fn event_fits(&self, account: &str, event: &ImapEvent) -> (r: bool)
        ensures
            r == self@.event_fits(account@, event@),
    {
        match event {
            ImapEvent::FlagsUpdated { mailbox, uid, flags, req_id } => self.flags_fit(
                account,
                mailbox.as_str(),
                *uid,
                flags,
            ),
            ImapEvent::Moved { mailbox, uid, dest, req_id } => self.move_fits(
                account,
                mailbox.as_str(),
                *uid,
                dest.as_str(),
            ),
            _ => true,
        }
    }

    /// Takes one event of an account.
    pub fn handle_imap_event(&mut self, account: &str, event: ImapEvent)
        requires
            old(self)@.has_ids(1),
            old(self)@.event_fits(account@, event@),
        ensures
            final(self)@ == old(self)@.on_imap(account@, event@),
    {
        let i = match app::find_account(&self.accounts, account) {
            Some(i) => i,
            None => {
                return ;
            },
        };
        match event {
            ImapEvent::Connected => self.on_connected(account, i),
            ImapEvent::Disconnected => self.on_disconnected(account, i),
            ImapEvent::Error(error) => self.on_error(account, i, error),
            ImapEvent::Mailboxes(list) => self.on_mailboxes(account, i, list),
            ImapEvent::Headers { mailbox, headers, page, total_pages, req_id, mailbox_state } =>
                self.on_headers(account, mailbox, headers, page, total_pages, req_id, mailbox_state),
            ImapEvent::Body { uid, html, attachments, req_id } => self.on_body(
                account,
                uid,
                html,
                attachments,
                req_id,
            ),
            ImapEvent::BodyFailed { uid, req_id, error } => self.on_body_failed(
                account,
                uid,
                req_id,
                error.as_str(),
            ),
            ImapEvent::DownloadProgress { current, total } => self.on_progress(
                account,
                current,
                total,
            ),
            ImapEvent::Exported { path } => self.set_status(
                joined("Exported message to ", path.as_str()),
            ),
            ImapEvent::ExportFailed { error } => self.push_account_banner(
                account,
                joined("Could not export message: ", error.as_str()),
            ),
            ImapEvent::MailData { mailbox, header, body, attachments } => self.emit(
                Effect::Db(
                    DbCommand::IndexMail {
                        account_id: account.to_owned(),
                        mailbox,
                        header,
                        body,
                        attachments,
                    },
                ),
            ),
            ImapEvent::MailboxPolled { mailbox, state } => {},
            ImapEvent::NewHeaders { mailbox, headers } => self.on_new_headers(account, i),
            ImapEvent::HeadersFrom { mailbox, headers } => self.emit(
                Effect::Db(
                    DbCommand::IndexHeaders { account_id: account.to_owned(), mailbox, headers },
                ),
            ),
            ImapEvent::Appended { mailbox } => {},
            ImapEvent::AppendFailed { mailbox, error } => self.push_account_banner(
                account,
                append_notice(mailbox.as_str(), error.as_str()),
            ),
            ImapEvent::PollFailed(error) => {},
            ImapEvent::FlagsUpdated { mailbox, uid, flags, req_id } => self.on_flags_updated(
                account,
                mailbox,
                uid,
                flags,
            ),
            ImapEvent::FlagsUpdateFailed { mailbox, uid, error, req_id } =>
                self.push_account_banner(
                account,
                message_notice("Could not update flags on message ", uid, error.as_str()),
            ),
            ImapEvent::Moved { mailbox, uid, dest, req_id } => self.on_moved(
                account,
                mailbox,
                uid,
                dest.as_str(),
            ),
            ImapEvent::MoveFailed { mailbox, uid, error, req_id } => self.push_account_banner(
                account,
                message_notice("Could not move message ", uid, error.as_str()),
            ),
            ImapEvent::UnreadCounts(counts) => self.set_counts(i, counts),
        }
    }
}

} // verus!
