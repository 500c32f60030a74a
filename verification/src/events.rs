//! What the program asks of an account's IMAP session, and what the session
//! tells the program.

use vstd::prelude::*;
use vstd::string::*;
use crate::auth::{Auth, AuthModel};
use crate::imap::{Attachment, AttachmentModel, MailHeader, MailHeaderModel, MailboxInfo, MailboxInfoModel, MailboxState};
use crate::text::Text;

verus! {

broadcast use vstd::string::group_string_axioms;

// ── Unread counts ───────────────────────────────────────────────────────────

/// The number of unread messages per mailbox. A mailbox that is missing has
/// not been counted yet.
#[derive(Debug)]
pub struct UnreadCounts {
    entries: Vec<(String, u32)>,
}

/// The count of the first entry for a mailbox.
pub open spec fn count_in(entries: Seq<(Text, u32)>, mailbox: Text) -> Option<u32>
    decreases entries.len(),
{
    if entries.len() == 0 {
        None
    } else if entries.first().0 == mailbox {
        Some(entries.first().1)
    } else {
        count_in(entries.drop_first(), mailbox)
    }
}

impl View for UnreadCounts {
    type V = Map<Text, u32>;

    closed spec fn view(&self) -> Map<Text, u32> {
        let entries = self.entries.deep_view();
        Map::new(|k: Text| count_in(entries, k) is Some, |k: Text| count_in(entries, k)->0)
    }
}

impl UnreadCounts {
    /// No mailbox counted.
    pub fn new() -> (r: Self)
        ensures
            r@ == Map::<Text, u32>::empty(),
    {
        let r = UnreadCounts { entries: Vec::new() };
        assert(r@ =~= Map::<Text, u32>::empty());
        r
    }

    /// The position of a mailbox's entry.
    fn find(&self, mailbox: &str) -> (r: Option<usize>)
        ensures
            match r {
                Some(i) => {
                    &&& i < self.entries@.len()
                    &&& self.entries@[i as int].0@ == mailbox@
                    &&& self@.dom().contains(mailbox@)
                    &&& self@[mailbox@] == self.entries@[i as int].1
                    &&& forall|j: int| 0 <= j < i ==> (#[trigger] self.entries@[j]).0@ != mailbox@
                },
                None => {
                    &&& !self@.dom().contains(mailbox@)
                    &&& forall|j: int|
                        0 <= j < self.entries@.len() ==> (#[trigger] self.entries@[j]).0@ != mailbox@
                },
            },
    {
        let ghost all = self.entries.deep_view();
        let mut i: usize = 0;
        assert(all.skip(0) =~= all);
        while i < self.entries.len()
            invariant
                i <= self.entries@.len(),
                all == self.entries.deep_view(),
                count_in(all, mailbox@) == count_in(all.skip(i as int), mailbox@),
                forall|j: int| 0 <= j < i ==> (#[trigger] self.entries@[j]).0@ != mailbox@,
            decreases self.entries@.len() - i,
        {
            assert(all.skip(i as int).first() == self.entries@[i as int].deep_view());
            assert(all.skip(i as int).drop_first() =~= all.skip(i + 1));
            if crate::text::same(self.entries[i].0.as_str(), mailbox) {
                return Some(i);
            }
            i += 1;
        }
        None
    }

    /// A mailbox's count.
    pub fn get(&self, mailbox: &str) -> (r: Option<u32>)
        ensures
            r == (if self@.dom().contains(mailbox@) {
                Some(self@[mailbox@])
            } else {
                None
            }),
    {
        match self.find(mailbox) {
            Some(i) => Some(self.entries[i].1),
            None => None,
        }
    }

    /// Sets a mailbox's count.
    pub fn set(&mut self, mailbox: &str, count: u32)
        ensures
            final(self)@ == old(self)@.insert(mailbox@, count),
    {
        let ghost before = self.entries.deep_view();
        match self.find(mailbox) {
            Some(i) => {
                let name = self.entries[i].0.clone();
                self.entries.set(i, (name, count));
                proof {
                    let after = self.entries.deep_view();
                    assert(after =~= before.update(i as int, (mailbox@, count)));
                    assert forall|k: Text| #[trigger] count_in(after, k) == if k == mailbox@ {
                        Some(count)
                    } else {
                        count_in(before, k)
                    } by {
                        assert forall|j: int| 0 <= j < i implies (#[trigger] before[j]).0 != mailbox@ by {}
                        lemma_count_update(before, i as int, mailbox@, count, k);
                    }
                }
            },
            None => {
                self.entries.push((mailbox.to_owned(), count));
                proof {
                    let after = self.entries.deep_view();
                    assert(after =~= before.push((mailbox@, count)));
                    assert forall|k: Text| #[trigger] count_in(after, k) == if k == mailbox@ {
                        Some(count)
                    } else {
                        count_in(before, k)
                    } by {
                        assert forall|j: int| 0 <= j < before.len() implies (#[trigger] before[j]).0
                            != mailbox@ by {}
                        lemma_count_push(before, mailbox@, count, k);
                    }
                }
            },
        }
        assert(self@ =~= old(self)@.insert(mailbox@, count));
    }
}

proof fn lemma_count_update(s: Seq<(Text, u32)>, i: int, mailbox: Text, count: u32, k: Text)
    requires
        0 <= i < s.len(),
        s[i].0 == mailbox,
        forall|j: int| 0 <= j < i ==> (#[trigger] s[j]).0 != mailbox,
    ensures
        count_in(s.update(i, (mailbox, count)), k) == if k == mailbox {
            Some(count)
        } else {
            count_in(s, k)
        },
    decreases s.len(),
{
    let t = s.update(i, (mailbox, count));
    if i == 0 {
        assert(t.drop_first() =~= s.drop_first());
    } else {
        assert(t.drop_first() =~= s.drop_first().update(i - 1, (mailbox, count)));
        assert(s[0].0 != mailbox);
        assert forall|j: int| 0 <= j < i - 1 implies (#[trigger] s.drop_first()[j]).0 != mailbox by {
            assert(s.drop_first()[j] == s[j + 1]);
        }
        lemma_count_update(s.drop_first(), i - 1, mailbox, count, k);
    }
}

proof fn lemma_count_push(s: Seq<(Text, u32)>, mailbox: Text, count: u32, k: Text)
    requires
        forall|j: int| 0 <= j < s.len() ==> (#[trigger] s[j]).0 != mailbox,
    ensures
        count_in(s.push((mailbox, count)), k) == if k == mailbox {
            Some(count)
        } else {
            count_in(s, k)
        },
    decreases s.len(),
{
    let t = s.push((mailbox, count));
    if s.len() == 0 {
        assert(t.drop_first() =~= s);
    } else {
        assert(t.drop_first() =~= s.drop_first().push((mailbox, count)));
        assert(s[0].0 != mailbox);
        assert forall|j: int| 0 <= j < s.drop_first().len() implies (#[trigger] s.drop_first()[j]).0
            != mailbox by {
            assert(s.drop_first()[j] == s[j + 1]);
        }
        lemma_count_push(s.drop_first(), mailbox, count, k);
    }
}

// ── Commands ────────────────────────────────────────────────────────────────

/// What an account connects and signs in with.
pub struct Credentials {
    pub host: String,
    pub port: u16,
    pub username: String,
    pub auth: Auth,
}

/// What a [`Credentials`] holds.
#[verifier::ext_equal]
pub struct CredentialsModel {
    pub host: Text,
    pub port: u16,
    pub username: Text,
    pub auth: AuthModel,
}

impl View for Credentials {
    type V = CredentialsModel;

    open spec fn view(&self) -> CredentialsModel {
        CredentialsModel {
            host: self.host@,
            port: self.port,
            username: self.username@,
            auth: self.auth@,
        }
    }
}

impl DeepView for Credentials {
    type V = CredentialsModel;

    open spec fn deep_view(&self) -> CredentialsModel {
        self.view()
    }
}

impl Clone for Credentials {
    fn clone(&self) -> (r: Self)
        ensures
            r@ == self@,
    {
        Credentials {
            host: self.host.clone(),
            port: self.port,
            username: self.username.clone(),
            auth: self.auth.clone(),
        }
    }
}

/// What the program asks of an account's session.
pub enum ImapCommand {
    /// Connect and sign in.
    Connect(Credentials),
    FetchMailboxes,
    /// Fetch one page of headers. `req_id` comes back with the reply, so that a
    /// late reply to an older request can be told apart.
    FetchHeaders { mailbox: String, page: u32, req_id: u64 },
    FetchBody { mailbox: String, uid: u32, req_id: u64 },
    /// Download and index a whole mailbox.
    BulkDownload { mailbox: String },
    /// Save one message's raw source to a file.
    ExportMessage { mailbox: String, uid: u32, path: String },
    /// Look for new mail. Dropped where there is no session: a background poll
    /// never reconnects.
    PollMailbox { mailbox: String },
    /// Fetch the envelopes of new mail for a notification.
    FetchNewHeaders { mailbox: String, first_uid: u32 },
    /// Fetch the envelopes that the cache is missing.
    FetchHeadersFrom { mailbox: String, first_uid: u32 },
    /// Save a sent message.
    Append { mailbox: String, raw: Vec<u8> },
    /// Add and remove flags on one message.
    StoreFlags { mailbox: String, uid: u32, add: Vec<String>, remove: Vec<String>, req_id: u64 },
    /// Move one message.
    MoveMessage { mailbox: String, uid: u32, dest: String, req_id: u64 },
    /// Count the unread messages of each mailbox.
    FetchUnreadCounts { mailboxes: Vec<String> },
}

/// What an [`ImapCommand`] holds.
#[verifier::ext_equal]
pub enum ImapCommandModel {
    Connect(CredentialsModel),
    FetchMailboxes,
    FetchHeaders { mailbox: Text, page: u32, req_id: u64 },
    FetchBody { mailbox: Text, uid: u32, req_id: u64 },
    BulkDownload { mailbox: Text },
    ExportMessage { mailbox: Text, uid: u32, path: Text },
    PollMailbox { mailbox: Text },
    FetchNewHeaders { mailbox: Text, first_uid: u32 },
    FetchHeadersFrom { mailbox: Text, first_uid: u32 },
    Append { mailbox: Text, raw: Seq<u8> },
    StoreFlags { mailbox: Text, uid: u32, add: Seq<Text>, remove: Seq<Text>, req_id: u64 },
    MoveMessage { mailbox: Text, uid: u32, dest: Text, req_id: u64 },
    FetchUnreadCounts { mailboxes: Seq<Text> },
}

impl View for ImapCommand {
    type V = ImapCommandModel;

    open spec fn view(&self) -> ImapCommandModel {
        match self {
            ImapCommand::Connect(x) => ImapCommandModel::Connect(x@),
            ImapCommand::FetchMailboxes => ImapCommandModel::FetchMailboxes,
            ImapCommand::FetchHeaders { mailbox, page, req_id } => ImapCommandModel::FetchHeaders {
                mailbox: mailbox@,
                page: *page,
                req_id: *req_id,
            },
            ImapCommand::FetchBody { mailbox, uid, req_id } => ImapCommandModel::FetchBody {
                mailbox: mailbox@,
                uid: *uid,
                req_id: *req_id,
            },
            ImapCommand::BulkDownload { mailbox } => ImapCommandModel::BulkDownload {
                mailbox: mailbox@,
            },
            ImapCommand::ExportMessage { mailbox, uid, path } => ImapCommandModel::ExportMessage {
                mailbox: mailbox@,
                uid: *uid,
                path: path@,
            },
            ImapCommand::PollMailbox { mailbox } => ImapCommandModel::PollMailbox {
                mailbox: mailbox@,
            },
            ImapCommand::FetchNewHeaders { mailbox, first_uid } => ImapCommandModel::FetchNewHeaders {
                mailbox: mailbox@,
                first_uid: *first_uid,
            },
            ImapCommand::FetchHeadersFrom { mailbox, first_uid } => ImapCommandModel::FetchHeadersFrom {
                mailbox: mailbox@,
                first_uid: *first_uid,
            },
            ImapCommand::Append { mailbox, raw } => ImapCommandModel::Append {
                mailbox: mailbox@,
                raw: raw@,
            },
            ImapCommand::StoreFlags { mailbox, uid, add, remove, req_id } => ImapCommandModel::StoreFlags {
                mailbox: mailbox@,
                uid: *uid,
                add: add.deep_view(),
                remove: remove.deep_view(),
                req_id: *req_id,
            },
            ImapCommand::MoveMessage { mailbox, uid, dest, req_id } => ImapCommandModel::MoveMessage {
                mailbox: mailbox@,
                uid: *uid,
                dest: dest@,
                req_id: *req_id,
            },
            ImapCommand::FetchUnreadCounts { mailboxes } => ImapCommandModel::FetchUnreadCounts {
                mailboxes: mailboxes.deep_view(),
            },
        }
    }
}

impl DeepView for ImapCommand {
    type V = ImapCommandModel;

    open spec fn deep_view(&self) -> ImapCommandModel {
        self.view()
    }
}

/// What is left to the connection that downloads messages.
pub enum WorkerCommand {
    FetchBody { mailbox: String, uid: u32, req_id: u64 },
    BulkDownload { mailbox: String },
    ExportMessage { mailbox: String, uid: u32, path: String },
}

/// What a [`WorkerCommand`] holds.
#[verifier::ext_equal]
pub enum WorkerCommandModel {
    FetchBody { mailbox: Text, uid: u32, req_id: u64 },
    BulkDownload { mailbox: Text },
    ExportMessage { mailbox: Text, uid: u32, path: Text },
}

impl View for WorkerCommand {
    type V = WorkerCommandModel;

    open spec fn view(&self) -> WorkerCommandModel {
        match self {
            WorkerCommand::FetchBody { mailbox, uid, req_id } => WorkerCommandModel::FetchBody {
                mailbox: mailbox@,
                uid: *uid,
                req_id: *req_id,
            },
            WorkerCommand::BulkDownload { mailbox } => WorkerCommandModel::BulkDownload {
                mailbox: mailbox@,
            },
            WorkerCommand::ExportMessage { mailbox, uid, path } => WorkerCommandModel::ExportMessage {
                mailbox: mailbox@,
                uid: *uid,
                path: path@,
            },
        }
    }
}

impl DeepView for WorkerCommand {
    type V = WorkerCommandModel;

    open spec fn deep_view(&self) -> WorkerCommandModel {
        self.view()
    }
}

// ── Events ──────────────────────────────────────────────────────────────────

/// What an account's session tells the program.
pub enum ImapEvent {
    Connected,
    /// The connection was lost; `Connected` or `Error` follows.
    Disconnected,
    Error(String),
    Mailboxes(Vec<MailboxInfo>),
    Headers { mailbox: String, headers: Vec<MailHeader>, page: u32, total_pages: u32, req_id: u64, mailbox_state: MailboxState },
    Body { uid: u32, html: String, attachments: Vec<Attachment>, req_id: u64 },
    /// A body could not be fetched. Names the request, so that its placeholder
    /// can be replaced.
    BodyFailed { uid: u32, req_id: u64, error: String },
    DownloadProgress { current: u32, total: u32 },
    Exported { path: String },
    ExportFailed { error: String },
    MailData { mailbox: String, header: MailHeader, body: String, attachments: Vec<Attachment> },
    MailboxPolled { mailbox: String, state: MailboxState },
    NewHeaders { mailbox: String, headers: Vec<MailHeader> },
    HeadersFrom { mailbox: String, headers: Vec<MailHeader> },
    Appended { mailbox: String },
    AppendFailed { mailbox: String, error: String },
    /// A background poll failed.
    PollFailed(String),
    FlagsUpdated { mailbox: String, uid: u32, flags: Vec<String>, req_id: u64 },
    FlagsUpdateFailed { mailbox: String, uid: u32, error: String, req_id: u64 },
    /// The message left `mailbox` and lives in `dest` now.
    Moved { mailbox: String, uid: u32, dest: String, req_id: u64 },
    MoveFailed { mailbox: String, uid: u32, error: String, req_id: u64 },
    /// The mailboxes that could be counted.
    UnreadCounts(UnreadCounts),
}

/// What an [`ImapEvent`] holds.
#[verifier::ext_equal]
pub enum ImapEventModel {
    Connected,
    Disconnected,
    Error(Text),
    Mailboxes(Seq<MailboxInfoModel>),
    Headers { mailbox: Text, headers: Seq<MailHeaderModel>, page: u32, total_pages: u32, req_id: u64, mailbox_state: MailboxState },
    Body { uid: u32, html: Text, attachments: Seq<AttachmentModel>, req_id: u64 },
    BodyFailed { uid: u32, req_id: u64, error: Text },
    DownloadProgress { current: u32, total: u32 },
    Exported { path: Text },
    ExportFailed { error: Text },
    MailData { mailbox: Text, header: MailHeaderModel, body: Text, attachments: Seq<AttachmentModel> },
    MailboxPolled { mailbox: Text, state: MailboxState },
    NewHeaders { mailbox: Text, headers: Seq<MailHeaderModel> },
    HeadersFrom { mailbox: Text, headers: Seq<MailHeaderModel> },
    Appended { mailbox: Text },
    AppendFailed { mailbox: Text, error: Text },
    PollFailed(Text),
    FlagsUpdated { mailbox: Text, uid: u32, flags: Seq<Text>, req_id: u64 },
    FlagsUpdateFailed { mailbox: Text, uid: u32, error: Text, req_id: u64 },
    Moved { mailbox: Text, uid: u32, dest: Text, req_id: u64 },
    MoveFailed { mailbox: Text, uid: u32, error: Text, req_id: u64 },
    UnreadCounts(Map<Text, u32>),
}

impl View for ImapEvent {
    type V = ImapEventModel;

    open spec fn view(&self) -> ImapEventModel {
        match self {
            ImapEvent::Connected => ImapEventModel::Connected,
            ImapEvent::Disconnected => ImapEventModel::Disconnected,
            ImapEvent::Error(x) => ImapEventModel::Error(x@),
            ImapEvent::Mailboxes(x) => ImapEventModel::Mailboxes(x.deep_view()),
            ImapEvent::Headers { mailbox, headers, page, total_pages, req_id, mailbox_state } => ImapEventModel::Headers {
                mailbox: mailbox@,
                headers: headers.deep_view(),
                page: *page,
                total_pages: *total_pages,
                req_id: *req_id,
                mailbox_state: *mailbox_state,
            },
            ImapEvent::Body { uid, html, attachments, req_id } => ImapEventModel::Body {
                uid: *uid,
                html: html@,
                attachments: attachments.deep_view(),
                req_id: *req_id,
            },
            ImapEvent::BodyFailed { uid, req_id, error } => ImapEventModel::BodyFailed {
                uid: *uid,
                req_id: *req_id,
                error: error@,
            },
            ImapEvent::DownloadProgress { current, total } => ImapEventModel::DownloadProgress {
                current: *current,
                total: *total,
            },
            ImapEvent::Exported { path } => ImapEventModel::Exported {
                path: path@,
            },
            ImapEvent::ExportFailed { error } => ImapEventModel::ExportFailed {
                error: error@,
            },
            ImapEvent::MailData { mailbox, header, body, attachments } => ImapEventModel::MailData {
                mailbox: mailbox@,
                header: header@,
                body: body@,
                attachments: attachments.deep_view(),
            },
            ImapEvent::MailboxPolled { mailbox, state } => ImapEventModel::MailboxPolled {
                mailbox: mailbox@,
                state: *state,
            },
            ImapEvent::NewHeaders { mailbox, headers } => ImapEventModel::NewHeaders {
                mailbox: mailbox@,
                headers: headers.deep_view(),
            },
            ImapEvent::HeadersFrom { mailbox, headers } => ImapEventModel::HeadersFrom {
                mailbox: mailbox@,
                headers: headers.deep_view(),
            },
            ImapEvent::Appended { mailbox } => ImapEventModel::Appended {
                mailbox: mailbox@,
            },
            ImapEvent::AppendFailed { mailbox, error } => ImapEventModel::AppendFailed {
                mailbox: mailbox@,
                error: error@,
            },
            ImapEvent::PollFailed(x) => ImapEventModel::PollFailed(x@),
            ImapEvent::FlagsUpdated { mailbox, uid, flags, req_id } => ImapEventModel::FlagsUpdated {
                mailbox: mailbox@,
                uid: *uid,
                flags: flags.deep_view(),
                req_id: *req_id,
            },
            ImapEvent::FlagsUpdateFailed { mailbox, uid, error, req_id } => ImapEventModel::FlagsUpdateFailed {
                mailbox: mailbox@,
                uid: *uid,
                error: error@,
                req_id: *req_id,
            },
            ImapEvent::Moved { mailbox, uid, dest, req_id } => ImapEventModel::Moved {
                mailbox: mailbox@,
                uid: *uid,
                dest: dest@,
                req_id: *req_id,
            },
            ImapEvent::MoveFailed { mailbox, uid, error, req_id } => ImapEventModel::MoveFailed {
                mailbox: mailbox@,
                uid: *uid,
                error: error@,
                req_id: *req_id,
            },
            ImapEvent::UnreadCounts(x) => ImapEventModel::UnreadCounts(x@),
        }
    }
}

impl DeepView for ImapEvent {
    type V = ImapEventModel;

    open spec fn deep_view(&self) -> ImapEventModel {
        self.view()
    }
}

} // verus!
