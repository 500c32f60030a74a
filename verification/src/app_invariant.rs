//! What holds of the program at all times, whatever happens to it: the
//! selection is finite, every search result has its origin, every compose window
//! has an id of its own, and nothing is kept of a message that is not open.

use vstd::prelude::*;
use vstd::string::*;
use crate::app_keys::{Keys, SenderModel};
use crate::app_laws;
use crate::app_outbox;
use crate::app_windows::Request;
use crate::compose::ComposeModel;
use crate::compose_window::{ComposeId, Focus, WindowModel};
use crate::db::DbEventModel;
use crate::events::ImapEventModel;
use crate::imap::{MailHeaderModel, SpecialUse};
use crate::outbox_laws;
use crate::selection;
use crate::state::{AccountModel, AppModel, OutboxItemModel, QueueEventModel, SmtpEventModel};
use crate::text::Text;
use crate::tray::TrayAction;

verus! {

broadcast use vstd::string::group_string_axioms;

impl AppModel {
    /// What holds of the program at all times: the selected messages are
    /// finitely many, each search result has its origin, every compose window
    /// has an id of its own that was handed out, and while no message is open
    /// there is no sender to trust and nothing to quote.
    pub open spec fn well_formed(self) -> bool {
        &&& self.selected_uids.finite()
        &&& app_laws::hits_are_paired(self)
        &&& outbox_laws::windows_are_distinct(self)
        &&& self.nothing_left_of_closed_mail()
    }

    /// While no message is open, no sender and no text of one is kept.
    pub open spec fn nothing_left_of_closed_mail(self) -> bool {
        self.selected_uid is None ==> self.current_sender is None && self.current_message_html.len()
            == 0
    }

    /// What is open, who sent it and what it says.
    spec fn open_mail(self) -> (Option<u32>, Option<Text>, Text) {
        (self.selected_uid, self.current_sender, self.current_message_html)
    }

    /// What [`AppModel::well_formed`] speaks of, but for the compose windows.
    spec fn lists(self) -> (Set<u32>, Option<Seq<MailHeaderModel>>, Seq<(Text, Text)>) {
        (self.selected_uids, self.search_results, self.search_origins)
    }

    /// The compose windows and the last id that was handed out.
    spec fn windows(self) -> (Seq<WindowModel>, u64) {
        (self.compose_windows, self.next_compose_id)
    }
}

/// What is left alone stays as it was.
proof fn lemma_same_parts(s: AppModel, t: AppModel)
    requires
        s.well_formed(),
        t.lists() == s.lists(),
        t.windows() == s.windows(),
        t.open_mail() == s.open_mail() || t.nothing_left_of_closed_mail(),
    ensures
        t.well_formed(),
{
    assert(t.compose_windows == s.compose_windows);
}

/// Windows that keep their ids stay distinct.
proof fn lemma_same_ids(s: AppModel, t: AppModel)
    requires
        outbox_laws::windows_are_distinct(s),
        t.compose_windows.len() == s.compose_windows.len(),
        t.next_compose_id >= s.next_compose_id,
        forall|i: int|
            0 <= i < s.compose_windows.len() ==> (#[trigger] t.compose_windows[i]).id
                == s.compose_windows[i].id,
    ensures
        outbox_laws::windows_are_distinct(t),
{
}

/// A program that has just started is well-formed.
pub proof fn law_a_new_program_is_well_formed(
    accounts: Seq<AccountModel>,
    has_tray: bool,
    notes: Seq<Text>,
    preview: bool,
    screenshot: bool,
)
    ensures
        AppModel::launched(accounts, has_tray, notes, preview, screenshot).well_formed(),
{
    lemma_noted_parts(AppModel::starting(accounts, has_tray && !screenshot, false), notes);
}

proof fn lemma_noted_parts(s: AppModel, notes: Seq<Text>)
    ensures
        s.noted(notes).lists() == s.lists(),
        s.noted(notes).windows() == s.windows(),
        s.noted(notes).open_mail() == s.open_mail(),
    decreases notes.len(),
{
    if notes.len() > 0 {
        lemma_noted_parts(s, notes.drop_last());
    }
}

// ── Accounts and mail ───────────────────────────────────────────────────────

proof fn lemma_activated(s: AppModel, account: Text, mailbox: Text)
    requires
        s.well_formed(),
    ensures
        s.activated(account, mailbox).well_formed(),
{
    reveal(AppModel::activated);
    let t = s.activated(account, mailbox);
    assert(t.windows() == s.windows());
    assert(t.selected_uids =~= Set::empty());
}

#[verifier::rlimit(40)]
proof fn lemma_events_and_open_mail(s: AppModel, account: Text, event: ImapEventModel)
    requires
        s.nothing_left_of_closed_mail(),
    ensures
        s.on_imap(account, event).nothing_left_of_closed_mail(),
{
    let t = s.on_imap(account, event);
    if s.has_account(account) {
        match event {
            ImapEventModel::Connected => {
                reveal(AppModel::activated);
            },
            ImapEventModel::FlagsUpdated { mailbox, uid, flags, req_id } => {
                let l = s.lists_reflagged(account, mailbox, uid, flags);
                assert(l.open_mail() == s.open_mail());
                assert(t.open_mail() == l.open_mail());
            },
            ImapEventModel::Moved { mailbox, uid, dest, req_id } => {
                let l = s.lists_without(account, mailbox, uid);
                assert(l.open_mail() == s.open_mail());
                let d = l.deselected(account, uid, dest);
                assert(d.nothing_left_of_closed_mail());
                assert(t.open_mail() == d.open_mail());
            },
            ImapEventModel::Body { uid, html, attachments, req_id } => {},
            ImapEventModel::BodyFailed { uid, req_id, error } => {},
            _ => {
                assert(t.open_mail() == s.open_mail());
            },
        }
    }
}

/// Whatever an account tells, the program stays well-formed.
#[verifier::rlimit(40)]
pub proof fn law_events_keep_the_program_well_formed(s: AppModel, account: Text, event: ImapEventModel)
    requires
        s.well_formed(),
    ensures
        s.on_imap(account, event).well_formed(),
{
    let t = s.on_imap(account, event);
    app_laws::law_results_keep_their_origins(s, account, event);
    lemma_events_and_open_mail(s, account, event);
    if s.has_account(account) {
        match event {
            ImapEventModel::Connected => {
                reveal(AppModel::activated);
                assert(t.windows() == s.windows());
            },
            ImapEventModel::FlagsUpdated { mailbox, uid, flags, req_id } => {
                let l = s.lists_reflagged(account, mailbox, uid, flags);
                assert(l.windows() == s.windows() && l.selected_uids == s.selected_uids);
                assert(t.windows() == l.windows() && t.selected_uids == l.selected_uids);
            },
            ImapEventModel::Moved { mailbox, uid, dest, req_id } => {
                let l = s.lists_without(account, mailbox, uid);
                assert(l.windows() == s.windows() && l.selected_uids == s.selected_uids);
                let d = l.deselected(account, uid, dest);
                assert(d.windows() == s.windows());
                assert(t.windows() == d.windows() && t.selected_uids == d.selected_uids);
            },
            _ => {
                assert(t.windows() == s.windows());
                assert(t.selected_uids == s.selected_uids);
            },
        }
    }
}

/// Whatever the cache answers, the program stays well-formed.
pub proof fn law_answers_keep_the_program_well_formed(s: AppModel, answer: DbEventModel)
    requires
        s.well_formed(),
    ensures
        s.on_db(answer).well_formed(),
{
    app_laws::law_answers_keep_their_origins(s, answer);
    let t = s.on_db(answer);
    assert(t.windows() == s.windows());
    assert(t.selected_uids == s.selected_uids);
}

/// Opening a mailbox and logging an account out keep the program well-formed.
pub proof fn law_accounts_come_and_go_well_formed(s: AppModel, account: Text, mailbox: Text)
    requires
        s.well_formed(),
    ensures
        s.activated(account, mailbox).well_formed(),
        s.dropped(account).well_formed(),
{
    lemma_activated(s, account, mailbox);
    let accounts = crate::app::without_account(s.accounts, account);
    let d = AppModel {
        accounts,
        search_all_accounts: s.search_all_accounts && accounts.len() >= 2,
        ..s
    };
    lemma_same_parts(s, d);
    if s.is_active(account) {
        let n = d.nothing_shown();
        assert(n.well_formed()) by {
            reveal(AppModel::nothing_shown);
            assert(n.windows() == s.windows());
            assert(n.selected_uids =~= Set::empty());
        }
        let next = crate::app::connected_index(accounts);
        if next >= 0 {
            lemma_activated(n, accounts[next].id, "INBOX"@);
            lemma_same_parts(n.activated(accounts[next].id, "INBOX"@), s.dropped(account));
        } else {
            lemma_same_parts(n, s.dropped(account));
        }
    } else {
        lemma_same_parts(d, s.dropped(account));
    }
}

// ── The list ────────────────────────────────────────────────────────────────

/// A click keeps the program well-formed, whether or not it opens the message.
pub proof fn law_clicks_keep_the_program_well_formed(
    s: AppModel,
    i: int,
    shift: bool,
    ctrl: bool,
    sender: Option<Text>,
    trusted: bool,
    now: u64,
)
    requires
        s.well_formed(),
        0 <= i < s.shown_list().len(),
    ensures
        s.clicked(i, shift, ctrl).well_formed(),
        s.message_clicked(i, shift, ctrl, sender, trusted, now).well_formed(),
{
    let list = s.shown_list();
    let uid = list[i].uid;
    let t = s.clicked(i, shift, ctrl);
    assert(t.windows() == s.windows());
    if s.select_anchor is Some {
        selection::law_range_selection(list, s.select_anchor->0, uid);
    }
    law_opening_keeps_the_program_well_formed(t, i, uid, false, sender, trusted, now);
}

/// Opening a message of the list keeps the program well-formed.
pub proof fn law_opening_keeps_the_program_well_formed(
    s: AppModel,
    i: int,
    uid: u32,
    is_search: bool,
    sender: Option<Text>,
    trusted: bool,
    now: u64,
)
    requires
        s.well_formed(),
    ensures
        s.opened(uid, is_search, sender, trusted, now).well_formed(),
        s.opened_at(i, sender, trusted, now).well_formed(),
{
    lemma_same_parts(s, s.opened(uid, is_search, sender, trusted, now));
    lemma_same_parts(s, s.opened_at(i, sender, trusted, now));
}

/// Turning pages, searching and marking as read keep the program well-formed.
pub proof fn law_looking_keeps_the_program_well_formed(s: AppModel, query: Option<Text>, page: u32, now: u64)
    requires
        s.well_formed(),
    ensures
        s.page_wanted(page).well_formed(),
        s.page_back().well_formed(),
        s.page_forward().well_formed(),
        s.searched(query).well_formed(),
        s.search_cleared().well_formed(),
        s.seen_if_due(now).well_formed(),
{
    lemma_same_parts(s, s.page_wanted(page));
    lemma_same_parts(s, s.page_back());
    lemma_same_parts(s, s.page_forward());
    lemma_same_parts(s, s.seen_if_due(now));
    assert(s.searched(query).windows() == s.windows());
    assert(s.search_cleared().windows() == s.windows());
}

proof fn lemma_flags_parts(s: AppModel, uids: Seq<u32>, add: Seq<Text>, remove: Seq<Text>)
    ensures
        s.flags_wanted_on(uids, add, remove).lists() == s.lists(),
        s.flags_wanted_on(uids, add, remove).windows() == s.windows(),
        s.flags_wanted_on(uids, add, remove).open_mail() == s.open_mail(),
    decreases uids.len(),
{
    if uids.len() > 0 {
        lemma_flags_parts(s, uids.drop_last(), add, remove);
    }
}

proof fn lemma_stars_parts(s: AppModel, uids: Seq<u32>)
    ensures
        s.stars_toggled_on(uids).lists() == s.lists(),
        s.stars_toggled_on(uids).windows() == s.windows(),
        s.stars_toggled_on(uids).open_mail() == s.open_mail(),
    decreases uids.len(),
{
    if uids.len() > 0 {
        lemma_stars_parts(s, uids.drop_last());
    }
}

proof fn lemma_moves_parts(s: AppModel, uids: Seq<u32>, dest: Text)
    ensures
        s.moves_wanted_on(uids, dest).lists() == s.lists(),
        s.moves_wanted_on(uids, dest).windows() == s.windows(),
        s.moves_wanted_on(uids, dest).open_mail() == s.open_mail(),
    decreases uids.len(),
{
    if uids.len() > 0 {
        lemma_moves_parts(s, uids.drop_last(), dest);
    }
}

/// Bulk actions keep the program well-formed.
pub proof fn law_bulk_actions_keep_the_program_well_formed(
    s: AppModel,
    uids: Seq<u32>,
    add: Seq<Text>,
    remove: Seq<Text>,
    dest: Text,
)
    requires
        s.well_formed(),
    ensures
        s.flags_wanted_on(uids, add, remove).well_formed(),
        s.stars_toggled_on(uids).well_formed(),
        s.moves_wanted_on(uids, dest).well_formed(),
{
    lemma_flags_parts(s, uids, add, remove);
    lemma_same_parts(s, s.flags_wanted_on(uids, add, remove));
    lemma_stars_parts(s, uids);
    lemma_same_parts(s, s.stars_toggled_on(uids));
    lemma_moves_parts(s, uids, dest);
    lemma_same_parts(s, s.moves_wanted_on(uids, dest));
}

// ── Compose windows ─────────────────────────────────────────────────────────

/// A window that opens keeps the program well-formed.
pub proof fn law_writing_keeps_the_program_well_formed(s: AppModel, state: ComposeModel, focus: Focus)
    requires
        s.well_formed(),
        s.next_compose_id < u64::MAX,
    ensures
        s.compose_opened(state, focus).well_formed(),
{
    outbox_laws::law_a_new_window_is_distinct(s, state, focus);
    assert(s.compose_opened(state, focus).lists() == s.lists());
}

/// A window that closes keeps the program well-formed.
pub proof fn law_closing_keeps_the_program_well_formed(s: AppModel, id: ComposeId)
    requires
        s.well_formed(),
    ensures
        s.compose_closed(id).well_formed(),
        s.compose_closed(id).next_compose_id == s.next_compose_id,
{
    outbox_laws::law_closing_leaves_the_other_windows(s, id, id);
    assert(s.compose_closed(id).lists() == s.lists());
}

proof fn lemma_closed(s: AppModel, ids: Seq<ComposeId>)
    requires
        s.well_formed(),
    ensures
        s.composes_closed(ids).well_formed(),
    decreases ids.len(),
{
    if ids.len() > 0 {
        lemma_closed(s, ids.drop_last());
        law_closing_keeps_the_program_well_formed(s.composes_closed(ids.drop_last()), ids.last());
    }
}

/// A window that changes under its own id keeps the program well-formed.
proof fn lemma_with_window(s: AppModel, t: AppModel, id: ComposeId, window: WindowModel)
    requires
        s.well_formed(),
        s.has_window(id),
        window.id == id,
        t.lists() == s.lists(),
        t.compose_windows == s.with_window(id, window).compose_windows,
        t.next_compose_id == s.next_compose_id,
        t.open_mail() == s.open_mail(),
    ensures
        t.well_formed(),
{
    app_outbox::lemma_window_index(s.compose_windows, id);
    lemma_same_ids(s, t);
}

proof fn lemma_send_wanted(s: AppModel, request: app_outbox::RequestModel, ready: Seq<Text>)
    requires
        s.well_formed(),
    ensures
        s.send_wanted(request, ready).well_formed(),
{
    if s.has_window(request.id) {
        app_outbox::lemma_window_index(s.compose_windows, request.id);
        let window = s.window(request.id);
        let t = s.send_wanted(request, ready);
        let next = match request.from {
            None => window.with_error("Choose an account to send from."@),
            Some(from) => if app_outbox::names(ready, from) {
                window.with_sending(true)
            } else {
                window.with_error("No SMTP password on file yet — connect once via IMAP first."@)
            },
        };
        lemma_with_window(s, t, request.id, next);
    }
}

proof fn lemma_sends_wanted(s: AppModel, requests: Seq<app_outbox::RequestModel>, ready: Seq<Text>)
    requires
        s.well_formed(),
    ensures
        s.sends_wanted(requests, ready).well_formed(),
    decreases requests.len(),
{
    if requests.len() > 0 {
        lemma_sends_wanted(s, requests.drop_last(), ready);
        lemma_send_wanted(s.sends_wanted(requests.drop_last(), ready), requests.last(), ready);
    }
}

/// Doing what the compose windows ask for keeps the program well-formed.
pub proof fn law_sending_keeps_the_program_well_formed(s: AppModel, ready: Seq<Text>, id: ComposeId)
    requires
        s.well_formed(),
    ensures
        s.composes_processed(ready).well_formed(),
        s.composes_shown().well_formed(),
        s.send_refused(id).well_formed(),
{
    let c = s.composes_closed(app_outbox::finished_ids(s.compose_windows));
    lemma_closed(s, app_outbox::finished_ids(s.compose_windows));
    let t = AppModel { compose_windows: app_outbox::requests_taken(c.compose_windows), ..c };
    lemma_same_ids(c, t);
    assert(t.lists() == c.lists());
    lemma_sends_wanted(t, app_outbox::requests_of(c.compose_windows), ready);
    lemma_same_ids(s, s.composes_shown());
    assert(s.composes_shown().lists() == s.lists());
    if s.has_window(id) {
        app_outbox::lemma_window_index(s.compose_windows, id);
        lemma_with_window(
            s,
            s.send_refused(id),
            id,
            s.window(id).with_error("Could not queue the message for sending."@),
        );
    }
}

proof fn lemma_sent(s: AppModel, id: ComposeId, raw: Seq<u8>)
    requires
        s.well_formed(),
    ensures
        s.on_sent(id, raw).well_formed(),
{
    let d = s.draft_done(id);
    lemma_same_parts(s, d);
    law_closing_keeps_the_program_well_formed(d, id);
    lemma_same_parts(d.compose_closed(id), s.on_sent(id, raw));
}

proof fn lemma_failure_kept(s: AppModel, id: ComposeId, error: Text)
    requires
        s.well_formed(),
    ensures
        s.failure_kept(id, error).well_formed(),
{
    lemma_same_parts(s, s.failure_kept(id, error));
}

proof fn lemma_failure_shown(s: AppModel, id: ComposeId, message: Text)
    requires
        s.well_formed(),
    ensures
        s.failure_shown(id, message).well_formed(),
{
    if s.has_window(id) {
        app_outbox::lemma_window_index(s.compose_windows, id);
        lemma_with_window(s, s.failure_shown(id, message), id, s.window(id).with_error(message));
    } else {
        lemma_same_parts(s, s.failure_shown(id, message));
    }
}

/// However a send ends, the program stays well-formed.
pub proof fn law_outcomes_keep_the_program_well_formed(s: AppModel, event: SmtpEventModel)
    requires
        s.well_formed(),
    ensures
        s.on_smtp(event).well_formed(),
{
    match event {
        SmtpEventModel::Sent { id, raw } => {
            lemma_sent(s, id, raw);
        },
        SmtpEventModel::Error { id, error } => {
            let f = AppModel { sending_from: s.sending_from.remove(id), ..s };
            lemma_same_parts(s, f);
            lemma_failure_kept(f, id, error);
            lemma_failure_shown(f.failure_kept(id, error), id, "Send failed: "@ + error);
        },
    }
}

proof fn lemma_retried(s: AppModel, items: Seq<OutboxItemModel>, ready: Seq<Text>)
    requires
        s.well_formed(),
        s.has_ids(items.len()),
    ensures
        s.all_retried(items, ready).well_formed(),
        s.all_retried(items, ready).next_compose_id <= s.next_compose_id + items.len(),
    decreases items.len(),
{
    if items.len() > 0 {
        lemma_retried(s, items.drop_last(), ready);
        let t = s.all_retried(items.drop_last(), ready);
        let u = t.retried(items.last(), ready);
        assert(u.lists() == t.lists());
        lemma_same_ids(t, u);
    }
}

/// Whatever the store of outgoing mail and drafts answers, the program stays
/// well-formed.
pub proof fn law_the_store_keeps_the_program_well_formed(
    s: AppModel,
    event: QueueEventModel,
    ready: Seq<Text>,
)
    requires
        s.well_formed(),
        s.ids_for(event),
    ensures
        s.on_queue(event, ready).well_formed(),
{
    match event {
        QueueEventModel::OutboxDue { items } => lemma_retried(s, items, ready),
        QueueEventModel::DraftSaved { id, compose_id } => {
            if s.has_window(compose_id) {
                app_outbox::lemma_window_index(s.compose_windows, compose_id);
                lemma_with_window(
                    s,
                    s.draft_saved(id, compose_id),
                    compose_id,
                    s.window(compose_id).with_draft(id),
                );
            }
        },
        QueueEventModel::DraftLoaded { id, compose } => {
            let state = ComposeModel { draft_id: Some(id), ..compose };
            law_writing_keeps_the_program_well_formed(s, state, Focus::Body);
            lemma_same_parts(s.compose_opened(state, Focus::Body), s.draft_opened(id, compose));
        },
        _ => lemma_same_parts(s, s.on_queue(event, ready)),
    }
}

proof fn lemma_autosaved(s: AppModel, windows: Seq<WindowModel>, now: u64)
    ensures
        s.all_autosaved(windows, now).lists() == s.lists(),
        s.all_autosaved(windows, now).windows() == s.windows(),
        s.all_autosaved(windows, now).open_mail() == s.open_mail(),
    decreases windows.len(),
{
    if windows.len() > 0 {
        lemma_autosaved(s, windows.drop_last(), now);
    }
}

/// What happens as time passes keeps the program well-formed.
pub proof fn law_waiting_keeps_the_program_well_formed(s: AppModel, now: u64)
    requires
        s.well_formed(),
    ensures
        s.all_autosaved(s.compose_windows, now).well_formed(),
        s.outbox_polled(now).well_formed(),
{
    lemma_autosaved(s, s.compose_windows, now);
    lemma_same_parts(s, s.all_autosaved(s.compose_windows, now));
    lemma_same_parts(s, s.outbox_polled(now));
}

// ── Windows and shortcuts ───────────────────────────────────────────────────

/// Showing, hiding and leaving the program, and its lists of drafts and
/// outgoing mail, keep it well-formed.
pub proof fn law_windows_keep_the_program_well_formed(
    s: AppModel,
    request: Request,
    action: TrayAction,
    account: Text,
    watched: Option<Text>,
    id: i64,
    quit: bool,
)
    requires
        s.well_formed(),
        s.next_compose_id < u64::MAX,
    ensures
        s.on_request(request).well_formed(),
        s.on_tray(action).well_formed(),
        s.on_toast(account, watched).well_formed(),
        s.on_close_without_tray().well_formed(),
        s.on_close_with_tray().well_formed(),
        s.on_closing().well_formed(),
        s.quit_question().well_formed(),
        s.quit_answered(quit).well_formed(),
        s.drafts_wanted().well_formed(),
        s.outbox_wanted().well_formed(),
        s.draft_deleted(id).well_formed(),
        s.item_deleted(id).well_formed(),
        s.item_edited(id).well_formed(),
{
    lemma_same_parts(s, s.on_request(request));
    lemma_same_parts(s, s.on_tray(action));
    if s.has_account(account) {
        let o = AppModel { adding_account: false, ..s };
        lemma_same_parts(s, o);
        lemma_activated(
            o,
            account,
            match watched {
                Some(mailbox) => mailbox,
                None => crate::app_windows::DEFAULT_WATCH_MAILBOX@,
            },
        );
    }
    lemma_same_parts(s, s.on_close_without_tray());
    lemma_same_parts(s, s.on_close_with_tray());
    lemma_same_parts(s, s.on_closing());
    lemma_same_parts(s, s.quit_question());
    lemma_same_parts(s, s.quit_answered(quit));
    lemma_same_parts(s, s.drafts_wanted());
    lemma_same_parts(s, s.outbox_wanted());
    lemma_same_parts(s, s.draft_deleted(id));
    lemma_same_parts(s, s.item_deleted(id));
    lemma_edited(s, id);
}

proof fn lemma_edited(s: AppModel, id: i64)
    requires
        s.well_formed(),
        s.next_compose_id < u64::MAX,
    ensures
        s.item_edited(id).well_formed(),
{
    if let Some(items) = s.outbox_window {
        let i = crate::app_windows::item_index(items, id);
        if i >= 0 {
            let q = (AppModel { outbox_window: Some(items.remove(i)), ..s }).queue(
                crate::state::QueueCommandModel::DeleteOutbox { id },
            );
            lemma_same_parts(s, q);
            law_writing_keeps_the_program_well_formed(
                q,
                ComposeModel { account_id: Some(items[i].account_id), ..items[i].compose },
                Focus::Body,
            );
        }
    }
}

proof fn lemma_keys_begun(s: AppModel, keys: Keys)
    requires
        s.well_formed(),
        s.next_compose_id < u64::MAX,
    ensures
        s.keys_begun(keys).well_formed(),
        s.keys_begun(keys).next_compose_id <= s.next_compose_id + 1,
{
    reveal(AppModel::keys_begun);
    reveal(AppModel::key_search);
    reveal(AppModel::key_compose);
    let t = s.key_search(keys.focus_search);
    lemma_same_parts(s, t);
    if keys.compose {
        law_writing_keeps_the_program_well_formed(
            t,
            t.from_here(crate::compose::blank()),
            Focus::To,
        );
    }
}

proof fn lemma_key_step(s: AppModel, next: bool, prev: bool, senders: Seq<SenderModel>, now: u64)
    requires
        s.well_formed(),
    ensures
        s.key_step(next, prev, senders, now).well_formed(),
        s.key_step(next, prev, senders, now).next_compose_id == s.next_compose_id,
{
    reveal(AppModel::key_step);
    let t = s.key_step(next, prev, senders, now);
    if (next || prev) && s.shown_list().len() > 0 {
        let i = s.step_index(next);
        let a = s.selected_alone(s.shown_list()[i].uid);
        assert(a.well_formed()) by {
            assert(a.windows() == s.windows());
            assert(a.open_mail() == s.open_mail());
        }
        let sender = crate::app_keys::sender_at(senders, i);
        law_opening_keeps_the_program_well_formed(
            a,
            i,
            0,
            false,
            sender.address,
            sender.trusted,
            now,
        );
        assert(t == a.opened_at(i, sender.address, sender.trusted, now));
    }
}

proof fn lemma_key_enter(
    s: AppModel,
    on: bool,
    senders: Seq<SenderModel>,
    open_trusted: bool,
    now: u64,
)
    requires
        s.well_formed(),
    ensures
        s.key_enter(on, senders, open_trusted, now).well_formed(),
        s.key_enter(on, senders, open_trusted, now).next_compose_id == s.next_compose_id,
{
    reveal(AppModel::key_enter);
    lemma_same_parts(s, s.key_enter(on, senders, open_trusted, now));
}

proof fn lemma_keys_opened(
    s: AppModel,
    keys: Keys,
    senders: Seq<SenderModel>,
    open_trusted: bool,
    now: u64,
)
    requires
        s.well_formed(),
    ensures
        s.keys_opened(keys, senders, open_trusted, now).well_formed(),
        s.keys_opened(keys, senders, open_trusted, now).next_compose_id == s.next_compose_id,
{
    reveal(AppModel::keys_opened);
    lemma_key_step(s, keys.next, keys.prev, senders, now);
    let t = s.key_step(keys.next, keys.prev, senders, now);
    lemma_key_enter(t, keys.enter, senders, open_trusted, now);
}

proof fn lemma_key_reply(s: AppModel, on: bool)
    requires
        s.well_formed(),
        s.next_compose_id < u64::MAX,
    ensures
        s.key_reply(on).well_formed(),
{
    reveal(AppModel::key_reply);
    if let Some(header) = s.selected_header() {
        if on {
            law_writing_keeps_the_program_well_formed(
                s,
                s.from_here(
                    crate::compose::reply_model(
                        header,
                        crate::compose::read_text(s.current_message_html),
                        seq![],
                    ),
                ),
                Focus::Body,
            );
        }
    }
}

proof fn lemma_key_move(s: AppModel, on: bool, want: SpecialUse, default: Text)
    requires
        s.well_formed(),
    ensures
        s.key_move(on, want, default).well_formed(),
{
    reveal(AppModel::key_move);
    if on {
        let dest = s.special_mailbox(want, default);
        law_bulk_actions_keep_the_program_well_formed(s, s.targets(), seq![], seq![], dest);
    }
}

proof fn lemma_keys_acted(s: AppModel, keys: Keys)
    requires
        s.well_formed(),
    ensures
        s.keys_acted(keys).well_formed(),
{
    reveal(AppModel::keys_acted);
    reveal(AppModel::key_star);
    let a = s.key_move(keys.archive, SpecialUse::Archive, crate::app::ARCHIVE_MAILBOX@);
    lemma_key_move(s, keys.archive, SpecialUse::Archive, crate::app::ARCHIVE_MAILBOX@);
    let d = a.key_move(keys.delete, SpecialUse::Trash, crate::app::TRASH_MAILBOX@);
    lemma_key_move(a, keys.delete, SpecialUse::Trash, crate::app::TRASH_MAILBOX@);
    if keys.star {
        law_bulk_actions_keep_the_program_well_formed(d, d.targets(), seq![], seq![], seq![]);
    }
}

/// The shortcuts of one frame keep the program well-formed.
pub proof fn law_shortcuts_keep_the_program_well_formed(
    s: AppModel,
    keys: Keys,
    senders: Seq<SenderModel>,
    open_trusted: bool,
    now: u64,
)
    requires
        s.well_formed(),
        s.ids_for_keys(),
    ensures
        s.on_keys(keys, senders, open_trusted, now).well_formed(),
{
    let b = s.keys_begun(keys);
    lemma_keys_begun(s, keys);
    let o = b.keys_opened(keys, senders, open_trusted, now);
    lemma_keys_opened(b, keys, senders, open_trusted, now);
    let r = o.key_reply(keys.reply);
    lemma_key_reply(o, keys.reply);
    lemma_keys_acted(r, keys);
}

} // verus!
