//! The state of the program: accounts, the message list and reading pane,
//! searches, compose windows and the outbox; and what the program asks to be
//! done outside.

use vstd::prelude::*;
use vstd::string::*;
use std::collections::{BTreeSet, HashMap, HashSet};
use crate::compose::{ComposeModel, ComposeState};
use crate::compose_window::{ComposeId, ComposeWindow, WindowModel};
use crate::db::{DbCommand, DbCommandModel};
use crate::events::{ImapCommand, ImapCommandModel, UnreadCounts};
use crate::imap::{Attachment, AttachmentModel, MailHeader, MailHeaderModel};
use crate::mailboxes::{MailboxRow, RowModel};
use crate::text::Text;

verus! {

broadcast use {vstd::string::group_string_axioms, vstd::std_specs::hash::group_hash_axioms};

// ── Accounts ────────────────────────────────────────────────────────────────

/// Where one account's connection stands.
#[derive(Debug, PartialEq)]
pub enum ConnState {
    /// The first connect is still in flight.
    Connecting,
    Connected,
    /// The connection dropped; the session is reconnecting on its own.
    Disconnected,
    /// The account is not going to recover by itself.
    Failed(String),
}

/// What a [`ConnState`] holds.
#[verifier::ext_equal]
pub enum ConnStateModel {
    Connecting,
    Connected,
    Disconnected,
    Failed(Text),
}

impl View for ConnState {
    type V = ConnStateModel;

    open spec fn view(&self) -> ConnStateModel {
        match self {
            ConnState::Connecting => ConnStateModel::Connecting,
            ConnState::Connected => ConnStateModel::Connected,
            ConnState::Disconnected => ConnStateModel::Disconnected,
            ConnState::Failed(x) => ConnStateModel::Failed(x@),
        }
    }
}

impl DeepView for ConnState {
    type V = ConnStateModel;

    open spec fn deep_view(&self) -> ConnStateModel {
        self.view()
    }
}

/// One signed-in account and what is kept per account.
pub struct AccountView {
    pub id: String,
    pub label: String,
    pub state: ConnState,
    /// The folder tree, flattened.
    pub mailbox_rows: Vec<MailboxRow>,
    pub unread_counts: UnreadCounts,
    /// The account came from the form and is saved once it connects.
    pub pending_persist: bool,
}

/// What an [`AccountView`] holds.
#[verifier::ext_equal]
pub struct AccountModel {
    pub id: Text,
    pub label: Text,
    pub state: ConnStateModel,
    pub mailbox_rows: Seq<RowModel>,
    pub unread_counts: Map<Text, u32>,
    pub pending_persist: bool,
}

impl View for AccountView {
    type V = AccountModel;

    open spec fn view(&self) -> AccountModel {
        AccountModel {
            id: self.id@,
            label: self.label@,
            state: self.state@,
            mailbox_rows: self.mailbox_rows.deep_view(),
            unread_counts: self.unread_counts@,
            pending_persist: self.pending_persist,
        }
    }
}

impl DeepView for AccountView {
    type V = AccountModel;

    open spec fn deep_view(&self) -> AccountModel {
        self.view()
    }
}

// ── Banners, outbox and drafts ──────────────────────────────────────────────

/// An error notice that stays until it is dismissed.
#[derive(Debug)]
pub struct Banner {
    pub id: u64,
    pub message: String,
}

/// What a [`Banner`] holds.
#[verifier::ext_equal]
pub struct BannerModel {
    pub id: u64,
    pub message: Text,
}

impl View for Banner {
    type V = BannerModel;

    open spec fn view(&self) -> BannerModel {
        BannerModel {
            id: self.id,
            message: self.message@,
        }
    }
}

impl DeepView for Banner {
    type V = BannerModel;

    open spec fn deep_view(&self) -> BannerModel {
        self.view()
    }
}

/// A message queued to be sent.
pub struct OutboxItem {
    pub id: i64,
    pub account_id: String,
    pub compose: ComposeState,
    /// How often sending has failed.
    pub attempts: u32,
    pub last_error: Option<String>,
}

/// What an [`OutboxItem`] holds.
#[verifier::ext_equal]
pub struct OutboxItemModel {
    pub id: i64,
    pub account_id: Text,
    pub compose: ComposeModel,
    pub attempts: u32,
    pub last_error: Option<Text>,
}

impl View for OutboxItem {
    type V = OutboxItemModel;

    open spec fn view(&self) -> OutboxItemModel {
        OutboxItemModel {
            id: self.id,
            account_id: self.account_id@,
            compose: self.compose@,
            attempts: self.attempts,
            last_error: self.last_error.deep_view(),
        }
    }
}

impl DeepView for OutboxItem {
    type V = OutboxItemModel;

    open spec fn deep_view(&self) -> OutboxItemModel {
        self.view()
    }
}

/// A saved draft as the list of drafts shows it.
#[derive(Debug)]
pub struct DraftSummary {
    pub id: i64,
    pub to: String,
    pub subject: String,
}

/// What a [`DraftSummary`] holds.
#[verifier::ext_equal]
pub struct DraftSummaryModel {
    pub id: i64,
    pub to: Text,
    pub subject: Text,
}

impl View for DraftSummary {
    type V = DraftSummaryModel;

    open spec fn view(&self) -> DraftSummaryModel {
        DraftSummaryModel {
            id: self.id,
            to: self.to@,
            subject: self.subject@,
        }
    }
}

impl DeepView for DraftSummary {
    type V = DraftSummaryModel;

    open spec fn deep_view(&self) -> DraftSummaryModel {
        self.view()
    }
}

/// What the program asks of the store of outgoing mail and drafts.
#[allow(inconsistent_fields)]
pub enum QueueCommand {
    /// Keep a message that could not be sent.
    EnqueueOutbox { id: Option<i64>, compose_id: ComposeId, account_id: String, compose: ComposeState },
    MarkOutboxSent { id: i64 },
    MarkOutboxFailed { id: i64, error: String },
    /// Ask for the messages that are due to be sent again.
    DueOutbox,
    ListOutbox,
    DeleteOutbox { id: i64 },
    SaveDraft { id: Option<i64>, compose_id: ComposeId, account_id: Option<String>, compose: ComposeState },
    ListDrafts,
    LoadDraft { id: i64 },
    DeleteDraft { id: i64 },
}

/// What a [`QueueCommand`] holds.
#[allow(inconsistent_fields)]
#[verifier::ext_equal]
pub enum QueueCommandModel {
    EnqueueOutbox { id: Option<i64>, compose_id: ComposeId, account_id: Text, compose: ComposeModel },
    MarkOutboxSent { id: i64 },
    MarkOutboxFailed { id: i64, error: Text },
    DueOutbox,
    ListOutbox,
    DeleteOutbox { id: i64 },
    SaveDraft { id: Option<i64>, compose_id: ComposeId, account_id: Option<Text>, compose: ComposeModel },
    ListDrafts,
    LoadDraft { id: i64 },
    DeleteDraft { id: i64 },
}

impl View for QueueCommand {
    type V = QueueCommandModel;

    open spec fn view(&self) -> QueueCommandModel {
        match self {
            QueueCommand::EnqueueOutbox { id, compose_id, account_id, compose } => QueueCommandModel::EnqueueOutbox {
                id: *id,
                compose_id: *compose_id,
                account_id: account_id@,
                compose: compose@,
            },
            QueueCommand::MarkOutboxSent { id } => QueueCommandModel::MarkOutboxSent {
                id: *id,
            },
            QueueCommand::MarkOutboxFailed { id, error } => QueueCommandModel::MarkOutboxFailed {
                id: *id,
                error: error@,
            },
            QueueCommand::DueOutbox => QueueCommandModel::DueOutbox,
            QueueCommand::ListOutbox => QueueCommandModel::ListOutbox,
            QueueCommand::DeleteOutbox { id } => QueueCommandModel::DeleteOutbox {
                id: *id,
            },
            QueueCommand::SaveDraft { id, compose_id, account_id, compose } => QueueCommandModel::SaveDraft {
                id: *id,
                compose_id: *compose_id,
                account_id: account_id.deep_view(),
                compose: compose@,
            },
            QueueCommand::ListDrafts => QueueCommandModel::ListDrafts,
            QueueCommand::LoadDraft { id } => QueueCommandModel::LoadDraft {
                id: *id,
            },
            QueueCommand::DeleteDraft { id } => QueueCommandModel::DeleteDraft {
                id: *id,
            },
        }
    }
}

impl DeepView for QueueCommand {
    type V = QueueCommandModel;

    open spec fn deep_view(&self) -> QueueCommandModel {
        self.view()
    }
}

/// What the store of outgoing mail and drafts answers.
#[allow(inconsistent_fields)]
pub enum QueueEvent {
    OutboxEnqueued { id: i64, compose_id: ComposeId },
    OutboxDue { items: Vec<OutboxItem> },
    OutboxList { items: Vec<OutboxItem> },
    DraftSaved { id: i64, compose_id: ComposeId },
    DraftList { items: Vec<DraftSummary> },
    DraftLoaded { id: i64, compose: ComposeState },
}

/// What a [`QueueEvent`] holds.
#[allow(inconsistent_fields)]
#[verifier::ext_equal]
pub enum QueueEventModel {
    OutboxEnqueued { id: i64, compose_id: ComposeId },
    OutboxDue { items: Seq<OutboxItemModel> },
    OutboxList { items: Seq<OutboxItemModel> },
    DraftSaved { id: i64, compose_id: ComposeId },
    DraftList { items: Seq<DraftSummaryModel> },
    DraftLoaded { id: i64, compose: ComposeModel },
}

impl View for QueueEvent {
    type V = QueueEventModel;

    open spec fn view(&self) -> QueueEventModel {
        match self {
            QueueEvent::OutboxEnqueued { id, compose_id } => QueueEventModel::OutboxEnqueued {
                id: *id,
                compose_id: *compose_id,
            },
            QueueEvent::OutboxDue { items } => QueueEventModel::OutboxDue {
                items: items.deep_view(),
            },
            QueueEvent::OutboxList { items } => QueueEventModel::OutboxList {
                items: items.deep_view(),
            },
            QueueEvent::DraftSaved { id, compose_id } => QueueEventModel::DraftSaved {
                id: *id,
                compose_id: *compose_id,
            },
            QueueEvent::DraftList { items } => QueueEventModel::DraftList {
                items: items.deep_view(),
            },
            QueueEvent::DraftLoaded { id, compose } => QueueEventModel::DraftLoaded {
                id: *id,
                compose: compose@,
            },
        }
    }
}

impl DeepView for QueueEvent {
    type V = QueueEventModel;

    open spec fn deep_view(&self) -> QueueEventModel {
        self.view()
    }
}

/// How a send ended.
pub enum SmtpEvent {
    /// `raw` is the message as it went out.
    Sent { id: ComposeId, raw: Vec<u8> },
    Error { id: ComposeId, error: String },
}

/// What a [`SmtpEvent`] holds.
#[verifier::ext_equal]
pub enum SmtpEventModel {
    Sent { id: ComposeId, raw: Seq<u8> },
    Error { id: ComposeId, error: Text },
}

impl View for SmtpEvent {
    type V = SmtpEventModel;

    open spec fn view(&self) -> SmtpEventModel {
        match self {
            SmtpEvent::Sent { id, raw } => SmtpEventModel::Sent {
                id: *id,
                raw: raw@,
            },
            SmtpEvent::Error { id, error } => SmtpEventModel::Error {
                id: *id,
                error: error@,
            },
        }
    }
}

impl DeepView for SmtpEvent {
    type V = SmtpEventModel;

    open spec fn deep_view(&self) -> SmtpEventModel {
        self.view()
    }
}

// ── What to do outside ──────────────────────────────────────────────────────

/// A command to the main window.
#[derive(Debug, Clone, Copy, PartialEq, Eq, Structural)]
pub enum WindowCommand {
    Show,
    Hide,
    Unminimize,
    Focus,
    Close,
    CancelClose,
}

/// Something the program asks to be done outside.
pub enum Effect {
    /// Send a command to an account's session.
    Imap { account: String, cmd: ImapCommand },
    /// Send a command to the cache.
    Db(DbCommand),
    /// Send a command to the store of outgoing mail and drafts.
    Queue(QueueCommand),
    /// Send a message from an account.
    Smtp { id: ComposeId, account: String, compose: ComposeState },
    /// Show a page in the reading pane.
    ShowPage(String),
    /// Render the page in the reading pane again.
    ReloadPage,
    /// Save an account's settings and credential.
    PersistAccount(String),
    /// Put an address on the list of senders whose images are loaded, or take
    /// it off.
    TrustSender { address: String, trusted: bool },
    Window(WindowCommand),
    /// Hide the native window of a compose window.
    HideCompose(ComposeId),
    /// Draw a compose window again.
    RepaintCompose(ComposeId),
    /// Draw the main window again.
    Repaint,
    SaveGeometry,
    /// Put the caret into the search box.
    FocusSearch,
}

/// What an [`Effect`] holds.
#[verifier::ext_equal]
pub enum EffectModel {
    Imap { account: Text, cmd: ImapCommandModel },
    Db(DbCommandModel),
    Queue(QueueCommandModel),
    Smtp { id: ComposeId, account: Text, compose: ComposeModel },
    ShowPage(Text),
    ReloadPage,
    PersistAccount(Text),
    TrustSender { address: Text, trusted: bool },
    Window(WindowCommand),
    HideCompose(ComposeId),
    RepaintCompose(ComposeId),
    Repaint,
    SaveGeometry,
    FocusSearch,
}

impl View for Effect {
    type V = EffectModel;

    open spec fn view(&self) -> EffectModel {
        match self {
            Effect::Imap { account, cmd } => EffectModel::Imap {
                account: account@,
                cmd: cmd@,
            },
            Effect::Db(x) => EffectModel::Db(x@),
            Effect::Queue(x) => EffectModel::Queue(x@),
            Effect::Smtp { id, account, compose } => EffectModel::Smtp {
                id: *id,
                account: account@,
                compose: compose@,
            },
            Effect::ShowPage(x) => EffectModel::ShowPage(x@),
            Effect::ReloadPage => EffectModel::ReloadPage,
            Effect::PersistAccount(x) => EffectModel::PersistAccount(x@),
            Effect::TrustSender { address, trusted } => EffectModel::TrustSender {
                address: address@,
                trusted: *trusted,
            },
            Effect::Window(x) => EffectModel::Window(*x),
            Effect::HideCompose(x) => EffectModel::HideCompose(*x),
            Effect::RepaintCompose(x) => EffectModel::RepaintCompose(*x),
            Effect::Repaint => EffectModel::Repaint,
            Effect::SaveGeometry => EffectModel::SaveGeometry,
            Effect::FocusSearch => EffectModel::FocusSearch,
        }
    }
}

impl DeepView for Effect {
    type V = EffectModel;

    open spec fn deep_view(&self) -> EffectModel {
        self.view()
    }
}

/// A map to strings, by what the strings hold.
pub open spec fn texts_of(m: Map<ComposeId, String>) -> Map<ComposeId, Text> {
    m.map_values(|s: String| s@)
}

// ── The program ─────────────────────────────────────────────────────────────

/// The state of the program.
pub struct EsMailApp {
    /// Every connected or connecting account, in the order they were added.
    pub accounts: Vec<AccountView>,
    /// The account the message list and reading pane show.
    pub active: Option<String>,
    /// The form for a new account is asked for.
    pub adding_account: bool,
    /// Transient progress text.
    pub status: String,
    /// Error notices, newest last.
    pub banners: Vec<Banner>,
    pub next_banner_id: u64,
    /// The mailbox open in the message list.
    pub selected_mailbox: String,
    pub headers: Vec<MailHeader>,
    /// The message whose body is shown.
    pub selected_uid: Option<u32>,
    /// The messages selected for bulk actions.
    pub selected_uids: BTreeSet<u32>,
    /// Where a range selection starts.
    pub select_anchor: Option<u32>,
    /// The open message and when it was opened, in milliseconds, until it is
    /// marked read.
    pub pending_mark_seen: Option<(u32, u64)>,
    pub current_page: u32,
    pub total_pages: u32,
    pub current_attachments: Vec<Attachment>,
    /// The open message's sender.
    pub current_sender: Option<String>,
    /// The open message's rendered text.
    pub current_message_html: String,
    /// The open message may load remote images.
    pub allow_remote: bool,
    pub compose_windows: Vec<ComposeWindow>,
    pub next_compose_id: u64,
    /// The account each send in flight was issued for.
    pub sending_from: HashMap<ComposeId, String>,
    /// The outbox row a compose window or a retry owns.
    pub outbox_owner: HashMap<ComposeId, i64>,
    /// Outbox rows with a send outstanding.
    pub outbox_in_flight: HashSet<i64>,
    /// When the outbox was last asked for due messages, in milliseconds.
    pub last_outbox_check: Option<u64>,
    /// When each compose window last saved itself, in milliseconds.
    pub compose_last_autosave: HashMap<ComposeId, u64>,
    pub outbox_window: Option<Vec<OutboxItem>>,
    pub drafts_window: Option<Vec<DraftSummary>>,
    /// Asking whether to quit although something is unsent.
    pub confirm_quit: bool,
    pub next_req_id: u64,
    /// The only header request whose reply is still wanted.
    pub current_headers_req: u64,
    /// The only body request whose reply is still wanted.
    pub current_body_req: u64,
    pub search_query: String,
    pub search_results: Option<Vec<MailHeader>>,
    /// Where each search result lives: account and mailbox.
    pub search_origins: Vec<(String, String)>,
    pub search_all_accounts: bool,
    /// Opening a search hit moved away from the mailbox that is listed.
    pub headers_stale: bool,
    pub download_progress: Option<(u32, u32)>,
    /// This run shows one page and has no accounts.
    pub preview: bool,
    /// There is a tray icon to come back from.
    pub has_tray: bool,
    pub exit_requested: bool,
    pub geometry_saved_on_close: bool,
    /// What is to be done outside, oldest first.
    pub effects: Vec<Effect>,
}

/// What an [`EsMailApp`] holds.
pub struct AppModel {
    pub accounts: Seq<AccountModel>,
    pub active: Option<Text>,
    pub adding_account: bool,
    pub status: Text,
    pub banners: Seq<BannerModel>,
    pub next_banner_id: u64,
    pub selected_mailbox: Text,
    pub headers: Seq<MailHeaderModel>,
    pub selected_uid: Option<u32>,
    pub selected_uids: Set<u32>,
    pub select_anchor: Option<u32>,
    pub pending_mark_seen: Option<(u32, u64)>,
    pub current_page: u32,
    pub total_pages: u32,
    pub current_attachments: Seq<AttachmentModel>,
    pub current_sender: Option<Text>,
    pub current_message_html: Text,
    pub allow_remote: bool,
    pub compose_windows: Seq<WindowModel>,
    pub next_compose_id: u64,
    pub sending_from: Map<ComposeId, Text>,
    pub outbox_owner: Map<ComposeId, i64>,
    pub outbox_in_flight: Set<i64>,
    pub last_outbox_check: Option<u64>,
    pub compose_last_autosave: Map<ComposeId, u64>,
    pub outbox_window: Option<Seq<OutboxItemModel>>,
    pub drafts_window: Option<Seq<DraftSummaryModel>>,
    pub confirm_quit: bool,
    pub next_req_id: u64,
    pub current_headers_req: u64,
    pub current_body_req: u64,
    pub search_query: Text,
    pub search_results: Option<Seq<MailHeaderModel>>,
    pub search_origins: Seq<(Text, Text)>,
    pub search_all_accounts: bool,
    pub headers_stale: bool,
    pub download_progress: Option<(u32, u32)>,
    pub preview: bool,
    pub has_tray: bool,
    pub exit_requested: bool,
    pub geometry_saved_on_close: bool,
    pub effects: Seq<EffectModel>,
}

impl View for EsMailApp {
    type V = AppModel;

    open spec fn view(&self) -> AppModel {
        AppModel {
            accounts: self.accounts.deep_view(),
            active: self.active.deep_view(),
            adding_account: self.adding_account,
            status: self.status@,
            banners: self.banners.deep_view(),
            next_banner_id: self.next_banner_id,
            selected_mailbox: self.selected_mailbox@,
            headers: self.headers.deep_view(),
            selected_uid: self.selected_uid,
            selected_uids: self.selected_uids@,
            select_anchor: self.select_anchor,
            pending_mark_seen: self.pending_mark_seen,
            current_page: self.current_page,
            total_pages: self.total_pages,
            current_attachments: self.current_attachments.deep_view(),
            current_sender: self.current_sender.deep_view(),
            current_message_html: self.current_message_html@,
            allow_remote: self.allow_remote,
            compose_windows: self.compose_windows.deep_view(),
            next_compose_id: self.next_compose_id,
            sending_from: texts_of(self.sending_from@),
            outbox_owner: self.outbox_owner@,
            outbox_in_flight: self.outbox_in_flight@,
            last_outbox_check: self.last_outbox_check,
            compose_last_autosave: self.compose_last_autosave@,
            outbox_window: self.outbox_window.deep_view(),
            drafts_window: self.drafts_window.deep_view(),
            confirm_quit: self.confirm_quit,
            next_req_id: self.next_req_id,
            current_headers_req: self.current_headers_req,
            current_body_req: self.current_body_req,
            search_query: self.search_query@,
            search_results: self.search_results.deep_view(),
            search_origins: self.search_origins.deep_view(),
            search_all_accounts: self.search_all_accounts,
            headers_stale: self.headers_stale,
            download_progress: self.download_progress,
            preview: self.preview,
            has_tray: self.has_tray,
            exit_requested: self.exit_requested,
            geometry_saved_on_close: self.geometry_saved_on_close,
            effects: self.effects.deep_view(),
        }
    }
}

} // verus!
