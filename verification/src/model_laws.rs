//! The models that the laws speak of leave nothing out: whatever a value holds, its
//! model holds in the place of the same name.

use vstd::prelude::*;
use vstd::string::*;
use crate::compose::ComposeState;
use crate::compose_window::{ComposeId, ComposeWindow};
use crate::db::{DbCommand, DbCommandModel, SearchHit};
use crate::events::{Credentials, ImapCommand, ImapCommandModel, ImapEvent, ImapEventModel};
use crate::imap::{Attachment, MailHeader, MailboxInfo, MailboxState};
use crate::state::{
    AccountView, Effect, EffectModel, EsMailApp, OutboxItem, QueueCommand, QueueCommandModel, SmtpEvent,
    SmtpEventModel,
};

verus! {

broadcast use vstd::string::group_string_axioms;

/// A message being written is modelled with everything it holds, its files byte for
/// byte, and so are the window it is written in and the outbox row it waits in.
pub proof fn law_messages_are_modelled_whole(c: ComposeState, w: ComposeWindow, item: OutboxItem, i: int)
    ensures
        c@.to == c.to@ && c@.cc == c.cc@ && c@.bcc == c.bcc@,
        c@.subject == c.subject@ && c@.body == c.body@,
        c@.in_reply_to == c.in_reply_to.deep_view() && c@.references == c.references.deep_view(),
        c@.attachments.len() == c.attachments@.len(),
        0 <= i < c.attachments@.len() ==> c@.attachments[i].0 == c.attachments@[i].0@
            && c@.attachments[i].1 == c.attachments@[i].1@,
        c@.account_id == c.account_id.deep_view() && c@.draft_id == c.draft_id,
        w@.id == w.id && w@.state == w.state@ && w@.initial == w.initial@,
        w@.accounts.len() == w.accounts@.len(),
        0 <= i < w.accounts@.len() ==> w@.accounts[i].0 == w.accounts@[i].0@ && w@.accounts[i].1
            == w.accounts@[i].1@,
        w@.error == w.error.deep_view() && w@.sending == w.sending && w@.send_requested
            == w.send_requested,
        w@.finished == w.finished && w@.confirm_discard == w.confirm_discard && w@.focus == w.focus,
        item@.id == item.id && item@.account_id == item.account_id@ && item@.compose == item.compose@,
        item@.attempts == item.attempts && item@.last_error == item.last_error.deep_view(),
{
    if 0 <= i < c.attachments@.len() {
        assert(c@.attachments[i].1 =~= c.attachments@[i].1@);
    }
}

/// A header, an attachment, a listed mailbox, a search result and an account's
/// credentials are modelled with everything they hold.
pub proof fn law_mail_is_modelled_whole(
    h: MailHeader,
    a: Attachment,
    mb: MailboxInfo,
    hit: SearchHit,
    c: Credentials,
    i: int,
)
    ensures
        h@.uid == h.uid && h@.subject == h.subject@ && h@.from == h.from@ && h@.to == h.to@,
        h@.date == h.date@ && h@.message_id == h.message_id@,
        h@.flags.len() == h.flags@.len(),
        0 <= i < h.flags@.len() ==> h@.flags[i] == h.flags@[i]@,
        a@.filename == a.filename@ && a@.mime_type == a.mime_type@ && a@.data == a.data@,
        mb@.name == mb.name@ && mb@.delimiter == mb.delimiter.deep_view(),
        mb@.special_use == mb.special_use && mb@.noselect == mb.noselect,
        hit@.account_id == hit.account_id@ && hit@.mailbox == hit.mailbox@ && hit@.header == hit.header@,
        c@.host == c.host@ && c@.port == c.port && c@.username == c.username@ && c@.auth == c.auth@,
{
}

/// The program is modelled with everything it holds.
pub proof fn law_the_program_is_modelled_whole(s: EsMailApp, a: AccountView)
    ensures
        a@.id == a.id@ && a@.label == a.label@ && a@.state == a.state@,
        a@.mailbox_rows == a.mailbox_rows.deep_view() && a@.unread_counts == a.unread_counts@,
        a@.pending_persist == a.pending_persist,
        s@.accounts == s.accounts.deep_view() && s@.active == s.active.deep_view(),
        s@.adding_account == s.adding_account && s@.status == s.status@,
        s@.banners == s.banners.deep_view() && s@.next_banner_id == s.next_banner_id,
        s@.selected_mailbox == s.selected_mailbox@ && s@.headers == s.headers.deep_view(),
        s@.selected_uid == s.selected_uid && s@.selected_uids == s.selected_uids@,
        s@.select_anchor == s.select_anchor && s@.pending_mark_seen == s.pending_mark_seen,
        s@.current_page == s.current_page && s@.total_pages == s.total_pages,
        s@.current_attachments == s.current_attachments.deep_view(),
        s@.current_sender == s.current_sender.deep_view(),
        s@.current_message_html == s.current_message_html@ && s@.allow_remote == s.allow_remote,
        s@.compose_windows == s.compose_windows.deep_view() && s@.next_compose_id == s.next_compose_id,
        s@.sending_from.dom() == s.sending_from@.dom(),
        forall|id: ComposeId|
            s.sending_from@.dom().contains(id) ==> #[trigger] s@.sending_from[id]
                == s.sending_from@[id]@,
        s@.outbox_owner == s.outbox_owner@ && s@.outbox_in_flight == s.outbox_in_flight@,
        s@.last_outbox_check == s.last_outbox_check,
        s@.compose_last_autosave == s.compose_last_autosave@,
        s@.outbox_window == s.outbox_window.deep_view() && s@.drafts_window
            == s.drafts_window.deep_view(),
        s@.confirm_quit == s.confirm_quit && s@.next_req_id == s.next_req_id,
        s@.current_headers_req == s.current_headers_req && s@.current_body_req == s.current_body_req,
        s@.search_query == s.search_query@ && s@.search_results == s.search_results.deep_view(),
        s@.search_origins == s.search_origins.deep_view(),
        s@.search_all_accounts == s.search_all_accounts && s@.headers_stale == s.headers_stale,
        s@.download_progress == s.download_progress && s@.preview == s.preview,
        s@.has_tray == s.has_tray && s@.exit_requested == s.exit_requested,
        s@.geometry_saved_on_close == s.geometry_saved_on_close,
        s@.effects == s.effects.deep_view(),
{
    assert(s@.sending_from.dom() =~= s.sending_from@.dom());
}

/// What is asked to be done outside is modelled with everything it names.
pub proof fn law_effects_are_modelled_whole(
    account: String,
    cmd: ImapCommand,
    asked: DbCommand,
    queued: QueueCommand,
    id: ComposeId,
    compose: ComposeState,
    trusted: bool,
)
    ensures
        (Effect::Imap { account, cmd })@ == (EffectModel::Imap { account: account@, cmd: cmd@ }),
        (Effect::Smtp { id, account, compose })@ == (EffectModel::Smtp {
            id,
            account: account@,
            compose: compose@,
        }),
        Effect::Db(asked)@ == EffectModel::Db(asked@),
        Effect::Queue(queued)@ == EffectModel::Queue(queued@),
        Effect::ShowPage(account)@ == EffectModel::ShowPage(account@),
        Effect::PersistAccount(account)@ == EffectModel::PersistAccount(account@),
        (Effect::TrustSender { address: account, trusted })@ == (EffectModel::TrustSender {
            address: account@,
            trusted,
        }),
        Effect::HideCompose(id)@ == EffectModel::HideCompose(id),
        Effect::RepaintCompose(id)@ == EffectModel::RepaintCompose(id),
{
}

/// A command to an account is modelled with everything it asks for.
pub proof fn law_commands_are_modelled_whole(
    mailbox: String,
    uid: u32,
    dest: String,
    page: u32,
    req_id: u64,
    add: Vec<String>,
    remove: Vec<String>,
    raw: Vec<u8>,
    c: Credentials,
)
    ensures
        ImapCommand::Connect(c)@ == ImapCommandModel::Connect(c@),
        (ImapCommand::FetchHeaders { mailbox, page, req_id })@ == (ImapCommandModel::FetchHeaders {
            mailbox: mailbox@,
            page,
            req_id,
        }),
        (ImapCommand::FetchBody { mailbox, uid, req_id })@ == (ImapCommandModel::FetchBody {
            mailbox: mailbox@,
            uid,
            req_id,
        }),
        (ImapCommand::BulkDownload { mailbox })@ == (ImapCommandModel::BulkDownload {
            mailbox: mailbox@,
        }),
        (ImapCommand::ExportMessage { mailbox, uid, path: dest })@ == (ImapCommandModel::ExportMessage {
            mailbox: mailbox@,
            uid,
            path: dest@,
        }),
        (ImapCommand::PollMailbox { mailbox })@ == (ImapCommandModel::PollMailbox { mailbox: mailbox@ }),
        (ImapCommand::FetchNewHeaders { mailbox, first_uid: uid })@ == (
        ImapCommandModel::FetchNewHeaders { mailbox: mailbox@, first_uid: uid }),
        (ImapCommand::FetchHeadersFrom { mailbox, first_uid: uid })@ == (
        ImapCommandModel::FetchHeadersFrom { mailbox: mailbox@, first_uid: uid }),
        (ImapCommand::Append { mailbox, raw })@ == (ImapCommandModel::Append {
            mailbox: mailbox@,
            raw: raw@,
        }),
        (ImapCommand::StoreFlags { mailbox, uid, add, remove, req_id })@ == (
        ImapCommandModel::StoreFlags {
            mailbox: mailbox@,
            uid,
            add: add.deep_view(),
            remove: remove.deep_view(),
            req_id,
        }),
        (ImapCommand::MoveMessage { mailbox, uid, dest, req_id })@ == (ImapCommandModel::MoveMessage {
            mailbox: mailbox@,
            uid,
            dest: dest@,
            req_id,
        }),
        (ImapCommand::FetchUnreadCounts { mailboxes: add })@ == (ImapCommandModel::FetchUnreadCounts {
            mailboxes: add.deep_view(),
        }),
{
}

/// What an account tells is modelled with everything it says.
pub proof fn law_events_are_modelled_whole(
    mailbox: String,
    uid: u32,
    html: String,
    attachments: Vec<Attachment>,
    req_id: u64,
    headers: Vec<MailHeader>,
    page: u32,
    total_pages: u32,
    mailbox_state: MailboxState,
    header: MailHeader,
    flags: Vec<String>,
    list: Vec<MailboxInfo>,
)
    ensures
        ImapEvent::Mailboxes(list)@ == ImapEventModel::Mailboxes(list.deep_view()),
        (ImapEvent::Headers { mailbox, headers, page, total_pages, req_id, mailbox_state })@ == (
        ImapEventModel::Headers {
            mailbox: mailbox@,
            headers: headers.deep_view(),
            page,
            total_pages,
            req_id,
            mailbox_state,
        }),
        (ImapEvent::Body { uid, html, attachments, req_id })@ == (ImapEventModel::Body {
            uid,
            html: html@,
            attachments: attachments.deep_view(),
            req_id,
        }),
        (ImapEvent::BodyFailed { uid, req_id, error: html })@ == (ImapEventModel::BodyFailed {
            uid,
            req_id,
            error: html@,
        }),
        (ImapEvent::MailData { mailbox, header, body: html, attachments })@ == (
        ImapEventModel::MailData {
            mailbox: mailbox@,
            header: header@,
            body: html@,
            attachments: attachments.deep_view(),
        }),
        (ImapEvent::NewHeaders { mailbox, headers })@ == (ImapEventModel::NewHeaders {
            mailbox: mailbox@,
            headers: headers.deep_view(),
        }),
        (ImapEvent::HeadersFrom { mailbox, headers })@ == (ImapEventModel::HeadersFrom {
            mailbox: mailbox@,
            headers: headers.deep_view(),
        }),
        (ImapEvent::FlagsUpdated { mailbox, uid, flags, req_id })@ == (ImapEventModel::FlagsUpdated {
            mailbox: mailbox@,
            uid,
            flags: flags.deep_view(),
            req_id,
        }),
        (ImapEvent::Moved { mailbox, uid, dest: html, req_id })@ == (ImapEventModel::Moved {
            mailbox: mailbox@,
            uid,
            dest: html@,
            req_id,
        }),
        (ImapEvent::MailboxPolled { mailbox, state: mailbox_state })@ == (
        ImapEventModel::MailboxPolled { mailbox: mailbox@, state: mailbox_state }),
        (ImapEvent::DownloadProgress { current: page, total: total_pages })@ == (
        ImapEventModel::DownloadProgress { current: page, total: total_pages }),
        (ImapEvent::Exported { path: html })@ == (ImapEventModel::Exported { path: html@ }),
        ImapEvent::Error(html)@ == ImapEventModel::Error(html@),
{
}

/// What is asked of the store and of the cache, and what sending comes to, is
/// modelled with everything it names.
pub proof fn law_requests_to_the_store_are_modelled_whole(
    id: i64,
    draft: Option<i64>,
    compose_id: ComposeId,
    account_id: String,
    from: Option<String>,
    place: Option<String>,
    compose: ComposeState,
    mailbox: String,
    content: String,
    uid: u32,
    header: MailHeader,
    attachments: Vec<Attachment>,
    flags: Vec<String>,
    raw: Vec<u8>,
)
    ensures
        (QueueCommand::EnqueueOutbox { id: draft, compose_id, account_id, compose })@ == (
        QueueCommandModel::EnqueueOutbox {
            id: draft,
            compose_id,
            account_id: account_id@,
            compose: compose@,
        }),
        (QueueCommand::SaveDraft { id: draft, compose_id, account_id: from, compose })@ == (
        QueueCommandModel::SaveDraft {
            id: draft,
            compose_id,
            account_id: from.deep_view(),
            compose: compose@,
        }),
        (QueueCommand::MarkOutboxSent { id })@ == (QueueCommandModel::MarkOutboxSent { id }),
        (QueueCommand::MarkOutboxFailed { id, error: mailbox })@ == (
        QueueCommandModel::MarkOutboxFailed { id, error: mailbox@ }),
        (QueueCommand::DeleteOutbox { id })@ == (QueueCommandModel::DeleteOutbox { id }),
        (QueueCommand::DeleteDraft { id })@ == (QueueCommandModel::DeleteDraft { id }),
        (QueueCommand::LoadDraft { id })@ == (QueueCommandModel::LoadDraft { id }),
        (DbCommand::IndexMail { account_id, mailbox, header, body: content, attachments })@ == (
        DbCommandModel::IndexMail {
            account_id: account_id@,
            mailbox: mailbox@,
            header: header@,
            body: content@,
            attachments: attachments.deep_view(),
        }),
        (DbCommand::FetchMail { account_id, mailbox, uid })@ == (DbCommandModel::FetchMail {
            account_id: account_id@,
            mailbox: mailbox@,
            uid,
        }),
        (DbCommand::Search { account_id: from, query: content, mailbox: place })@ == (
        DbCommandModel::Search {
            account_id: from.deep_view(),
            query: content@,
            mailbox: place.deep_view(),
        }),
        (DbCommand::UpdateFlags { account_id, mailbox, uid, flags })@ == (DbCommandModel::UpdateFlags {
            account_id: account_id@,
            mailbox: mailbox@,
            uid,
            flags: flags.deep_view(),
        }),
        (DbCommand::RemoveMessage { account_id, mailbox, uid })@ == (DbCommandModel::RemoveMessage {
            account_id: account_id@,
            mailbox: mailbox@,
            uid,
        }),
        (SmtpEvent::Sent { id: compose_id, raw })@ == (SmtpEventModel::Sent {
            id: compose_id,
            raw: raw@,
        }),
        (SmtpEvent::Error { id: compose_id, error: mailbox })@ == (SmtpEventModel::Error {
            id: compose_id,
            error: mailbox@,
        }),
{
}

} // verus!
