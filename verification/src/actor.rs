//! The decisions of an account's session: which command runs when, how a lost
//! connection is retried, and which event answers what.
//!
//! The network is outside. The session is told what happened there and says
//! what to do next.

use vstd::prelude::*;
use vstd::string::*;
use crate::events::{Credentials, CredentialsModel, ImapCommand, ImapCommandModel, ImapEvent, ImapEventModel, UnreadCounts, WorkerCommand, WorkerCommandModel};
use crate::imap::{MailHeader, MailHeaderModel, MailboxInfo, MailboxInfoModel, MailboxState};
use crate::text::Text;

verus! {

broadcast use vstd::string::group_string_axioms;

// ── Backoff ─────────────────────────────────────────────────────────────────

/// How often a lost connection is retried before the error is reported.
pub const MAX_RECONNECT_ATTEMPTS: u32 = 5;

/// The longest wait between two attempts, in seconds.
pub const MAX_RECONNECT_DELAY: u64 = 16;

/// The wait in seconds after the given failed attempt: one second after the
/// first, then twice as long each time, up to the longest.
pub open spec fn delay_after(attempt: nat) -> nat
    decreases attempt,
{
    if attempt <= 1 {
        1
    } else {
        doubled(delay_after((attempt - 1) as nat))
    }
}

/// Twice a wait, up to the longest.
pub open spec fn doubled(delay: nat) -> nat {
    if 2 * delay > MAX_RECONNECT_DELAY {
        MAX_RECONNECT_DELAY as nat
    } else {
        2 * delay
    }
}

/// Twice a wait, up to the longest.
pub fn double(delay: u64) -> (r: u64)
    ensures
        r == doubled(delay as nat),
{
    if delay > MAX_RECONNECT_DELAY / 2 {
        MAX_RECONNECT_DELAY
    } else {
        delay * 2
    }
}

/// The waits between the attempts to reconnect are 1, 2, 4 and 8 seconds.
pub proof fn law_backoff_doubles()
    ensures
        delay_after(1) == 1,
        delay_after(2) == 2,
        delay_after(3) == 4,
        delay_after(4) == 8,
        forall|n: nat| #[trigger] delay_after(n) <= MAX_RECONNECT_DELAY,
{
    reveal_with_fuel(delay_after, 5);
    assert forall|n: nat| #[trigger] delay_after(n) <= MAX_RECONNECT_DELAY by {
        lemma_delay_bounded(n);
    }
}

proof fn lemma_delay_bounded(n: nat)
    ensures
        delay_after(n) <= MAX_RECONNECT_DELAY,
    decreases n,
{
    if n > 1 {
        lemma_delay_bounded((n - 1) as nat);
    }
}

// ── Inputs and actions ──────────────────────────────────────────────────────

/// What a command brought back from the server.
pub enum Reply {
    Mailboxes(Vec<MailboxInfo>),
    Headers { headers: Vec<MailHeader>, total_pages: u32, state: MailboxState },
    Polled(MailboxState),
    Envelopes(Vec<MailHeader>),
    Appended,
    Flags(Vec<String>),
    Moved,
    Unread(UnreadCounts),
}

/// What a [`Reply`] holds.
#[verifier::ext_equal]
pub enum ReplyModel {
    Mailboxes(Seq<MailboxInfoModel>),
    Headers { headers: Seq<MailHeaderModel>, total_pages: u32, state: MailboxState },
    Polled(MailboxState),
    Envelopes(Seq<MailHeaderModel>),
    Appended,
    Flags(Seq<Text>),
    Moved,
    Unread(Map<Text, u32>),
}

impl View for Reply {
    type V = ReplyModel;

    open spec fn view(&self) -> ReplyModel {
        match self {
            Reply::Mailboxes(x) => ReplyModel::Mailboxes(x.deep_view()),
            Reply::Headers { headers, total_pages, state } => ReplyModel::Headers {
                headers: headers.deep_view(),
                total_pages: *total_pages,
                state: *state,
            },
            Reply::Polled(x) => ReplyModel::Polled(*x),
            Reply::Envelopes(x) => ReplyModel::Envelopes(x.deep_view()),
            Reply::Appended => ReplyModel::Appended,
            Reply::Flags(x) => ReplyModel::Flags(x.deep_view()),
            Reply::Moved => ReplyModel::Moved,
            Reply::Unread(x) => ReplyModel::Unread(x@),
        }
    }
}

impl DeepView for Reply {
    type V = ReplyModel;

    open spec fn deep_view(&self) -> ReplyModel {
        self.view()
    }
}

/// What happened outside.
pub enum ActorInput {
    /// The program asks for something.
    Command(ImapCommand),
    /// The connection that was asked for is open and signed in.
    Connected,
    /// It could not be opened. `permanent` if trying again cannot help.
    ConnectFailed { error: String, permanent: bool },
    /// The wait is over.
    Slept,
    /// The command that was handed over came back.
    Done(Reply),
    /// The command that was handed over failed.
    Failed(String),
}

/// What an [`ActorInput`] holds.
#[verifier::ext_equal]
pub enum ActorInputModel {
    Command(ImapCommandModel),
    Connected,
    ConnectFailed { error: Text, permanent: bool },
    Slept,
    Done(ReplyModel),
    Failed(Text),
}

impl View for ActorInput {
    type V = ActorInputModel;

    open spec fn view(&self) -> ActorInputModel {
        match self {
            ActorInput::Command(x) => ActorInputModel::Command(x@),
            ActorInput::Connected => ActorInputModel::Connected,
            ActorInput::ConnectFailed { error, permanent } => ActorInputModel::ConnectFailed {
                error: error@,
                permanent: *permanent,
            },
            ActorInput::Slept => ActorInputModel::Slept,
            ActorInput::Done(x) => ActorInputModel::Done(x@),
            ActorInput::Failed(x) => ActorInputModel::Failed(x@),
        }
    }
}

impl DeepView for ActorInput {
    type V = ActorInputModel;

    open spec fn deep_view(&self) -> ActorInputModel {
        self.view()
    }
}

/// What to do outside.
pub enum ActorAction {
    /// Tell the program.
    Emit(ImapEvent),
    /// Open a connection and sign in.
    Connect(Credentials),
    /// Wait so many seconds.
    Sleep(u64),
    /// Start a fresh download connection in place of the old one.
    StartWorker(Credentials),
    /// Hand a command to the download connection.
    ToWorker(WorkerCommand),
    /// Drop the session.
    DropSession,
    /// Run a command on the session.
    Perform(ImapCommand),
}

/// What an [`ActorAction`] holds.
#[verifier::ext_equal]
pub enum ActorActionModel {
    Emit(ImapEventModel),
    Connect(CredentialsModel),
    Sleep(u64),
    StartWorker(CredentialsModel),
    ToWorker(WorkerCommandModel),
    DropSession,
    Perform(ImapCommandModel),
}

impl View for ActorAction {
    type V = ActorActionModel;

    open spec fn view(&self) -> ActorActionModel {
        match self {
            ActorAction::Emit(x) => ActorActionModel::Emit(x@),
            ActorAction::Connect(x) => ActorActionModel::Connect(x@),
            ActorAction::Sleep(x) => ActorActionModel::Sleep(*x),
            ActorAction::StartWorker(x) => ActorActionModel::StartWorker(x@),
            ActorAction::ToWorker(x) => ActorActionModel::ToWorker(x@),
            ActorAction::DropSession => ActorActionModel::DropSession,
            ActorAction::Perform(x) => ActorActionModel::Perform(x@),
        }
    }
}

impl DeepView for ActorAction {
    type V = ActorActionModel;

    open spec fn deep_view(&self) -> ActorActionModel {
        self.view()
    }
}

/// What is known of a running command when its reply comes in.
pub enum Pending {
    Mailboxes,
    Headers { mailbox: String, page: u32, req_id: u64 },
    Poll { mailbox: String },
    NewHeaders { mailbox: String },
    HeadersFrom { mailbox: String },
    Append { mailbox: String },
    Flags { mailbox: String, uid: u32, req_id: u64 },
    Move { mailbox: String, uid: u32, dest: String, req_id: u64 },
    Unread,
    /// A command that does not run on the session.
    Other,
}

/// What a [`Pending`] holds.
#[verifier::ext_equal]
pub enum PendingModel {
    Mailboxes,
    Headers { mailbox: Text, page: u32, req_id: u64 },
    Poll { mailbox: Text },
    NewHeaders { mailbox: Text },
    HeadersFrom { mailbox: Text },
    Append { mailbox: Text },
    Flags { mailbox: Text, uid: u32, req_id: u64 },
    Move { mailbox: Text, uid: u32, dest: Text, req_id: u64 },
    Unread,
    Other,
}

impl View for Pending {
    type V = PendingModel;

    open spec fn view(&self) -> PendingModel {
        match self {
            Pending::Mailboxes => PendingModel::Mailboxes,
            Pending::Headers { mailbox, page, req_id } => PendingModel::Headers {
                mailbox: mailbox@,
                page: *page,
                req_id: *req_id,
            },
            Pending::Poll { mailbox } => PendingModel::Poll {
                mailbox: mailbox@,
            },
            Pending::NewHeaders { mailbox } => PendingModel::NewHeaders {
                mailbox: mailbox@,
            },
            Pending::HeadersFrom { mailbox } => PendingModel::HeadersFrom {
                mailbox: mailbox@,
            },
            Pending::Append { mailbox } => PendingModel::Append {
                mailbox: mailbox@,
            },
            Pending::Flags { mailbox, uid, req_id } => PendingModel::Flags {
                mailbox: mailbox@,
                uid: *uid,
                req_id: *req_id,
            },
            Pending::Move { mailbox, uid, dest, req_id } => PendingModel::Move {
                mailbox: mailbox@,
                uid: *uid,
                dest: dest@,
                req_id: *req_id,
            },
            Pending::Unread => PendingModel::Unread,
            Pending::Other => PendingModel::Other,
        }
    }
}

impl DeepView for Pending {
    type V = PendingModel;

    open spec fn deep_view(&self) -> PendingModel {
        self.view()
    }
}

/// Where the session stands.
pub enum Phase {
    Idle,
    /// The program asked for a connection.
    SigningIn(Credentials),
    /// A command waits for the connection to come back.
    Reconnecting { job: ImapCommand, attempt: u32, delay: u64 },
    /// A command waits for the next attempt.
    Backoff { job: ImapCommand, attempt: u32, delay: u64 },
    /// A command runs.
    Working(Pending),
}

/// What a [`Phase`] holds.
#[verifier::ext_equal]
pub enum PhaseModel {
    Idle,
    SigningIn(CredentialsModel),
    Reconnecting { job: ImapCommandModel, attempt: u32, delay: u64 },
    Backoff { job: ImapCommandModel, attempt: u32, delay: u64 },
    Working(PendingModel),
}

impl View for Phase {
    type V = PhaseModel;

    open spec fn view(&self) -> PhaseModel {
        match self {
            Phase::Idle => PhaseModel::Idle,
            Phase::SigningIn(x) => PhaseModel::SigningIn(x@),
            Phase::Reconnecting { job, attempt, delay } => PhaseModel::Reconnecting {
                job: job@,
                attempt: *attempt,
                delay: *delay,
            },
            Phase::Backoff { job, attempt, delay } => PhaseModel::Backoff {
                job: job@,
                attempt: *attempt,
                delay: *delay,
            },
            Phase::Working(x) => PhaseModel::Working(x@),
        }
    }
}

impl DeepView for Phase {
    type V = PhaseModel;

    open spec fn deep_view(&self) -> PhaseModel {
        self.view()
    }
}

/// An account's session.
pub struct ImapActor {
    connected: bool,
    credentials: Option<Credentials>,
    has_worker: bool,
    phase: Phase,
}

/// What an [`ImapActor`] holds.
#[verifier::ext_equal]
pub struct ActorModel {
    /// There is a live session.
    pub connected: bool,
    /// What the last successful sign-in used.
    pub credentials: Option<CredentialsModel>,
    /// There is a download connection to hand commands to.
    pub has_worker: bool,
    pub phase: PhaseModel,
}

impl View for ImapActor {
    type V = ActorModel;

    closed spec fn view(&self) -> ActorModel {
        ActorModel {
            connected: self.connected,
            credentials: self.credentials.deep_view(),
            has_worker: self.has_worker,
            phase: self.phase@,
        }
    }
}

// ── Which event answers what ────────────────────────────────────────────────

/// What is known of a command when its reply comes in.
pub open spec fn pending_of(cmd: ImapCommandModel) -> PendingModel {
    match cmd {
        ImapCommandModel::FetchMailboxes => PendingModel::Mailboxes,
        ImapCommandModel::FetchHeaders { mailbox, page, req_id } => PendingModel::Headers {
            mailbox,
            page,
            req_id,
        },
        ImapCommandModel::PollMailbox { mailbox } => PendingModel::Poll { mailbox },
        ImapCommandModel::FetchNewHeaders { mailbox, first_uid } => PendingModel::NewHeaders { mailbox },
        ImapCommandModel::FetchHeadersFrom { mailbox, first_uid } => PendingModel::HeadersFrom {
            mailbox,
        },
        ImapCommandModel::Append { mailbox, raw } => PendingModel::Append { mailbox },
        ImapCommandModel::StoreFlags { mailbox, uid, add, remove, req_id } => PendingModel::Flags {
            mailbox,
            uid,
            req_id,
        },
        ImapCommandModel::MoveMessage { mailbox, uid, dest, req_id } => PendingModel::Move {
            mailbox,
            uid,
            dest,
            req_id,
        },
        ImapCommandModel::FetchUnreadCounts { mailboxes } => PendingModel::Unread,
        _ => PendingModel::Other,
    }
}

/// The event that reports a command's failure. A failed count of unread
/// messages is not reported; a failed poll is reported as such.
pub open spec fn failure(pending: PendingModel, error: Text) -> Option<ImapEventModel> {
    match pending {
        PendingModel::Mailboxes | PendingModel::Headers { .. } | PendingModel::HeadersFrom { .. } => Some(
            ImapEventModel::Error(error),
        ),
        PendingModel::Poll { .. } | PendingModel::NewHeaders { .. } => Some(
            ImapEventModel::PollFailed(error),
        ),
        PendingModel::Append { mailbox } => Some(ImapEventModel::AppendFailed { mailbox, error }),
        PendingModel::Flags { mailbox, uid, req_id } => Some(
            ImapEventModel::FlagsUpdateFailed { mailbox, uid, error, req_id },
        ),
        PendingModel::Move { mailbox, uid, dest, req_id } => Some(
            ImapEventModel::MoveFailed { mailbox, uid, error, req_id },
        ),
        PendingModel::Unread | PendingModel::Other => None,
    }
}

/// The event that passes a reply on. A reply of another kind than the command
/// asks for has none.
pub open spec fn success(pending: PendingModel, reply: ReplyModel) -> Option<ImapEventModel> {
    match (pending, reply) {
        (PendingModel::Mailboxes, ReplyModel::Mailboxes(list)) => Some(ImapEventModel::Mailboxes(list)),
        (
            PendingModel::Headers { mailbox, page, req_id },
            ReplyModel::Headers { headers, total_pages, state },
        ) => Some(
            ImapEventModel::Headers {
                mailbox,
                headers,
                page,
                total_pages,
                req_id,
                mailbox_state: state,
            },
        ),
        (PendingModel::Poll { mailbox }, ReplyModel::Polled(state)) => Some(
            ImapEventModel::MailboxPolled { mailbox, state },
        ),
        (PendingModel::NewHeaders { mailbox }, ReplyModel::Envelopes(headers)) => Some(
            ImapEventModel::NewHeaders { mailbox, headers },
        ),
        (PendingModel::HeadersFrom { mailbox }, ReplyModel::Envelopes(headers)) => Some(
            ImapEventModel::HeadersFrom { mailbox, headers },
        ),
        (PendingModel::Append { mailbox }, ReplyModel::Appended) => Some(
            ImapEventModel::Appended { mailbox },
        ),
        (PendingModel::Flags { mailbox, uid, req_id }, ReplyModel::Flags(flags)) => Some(
            ImapEventModel::FlagsUpdated { mailbox, uid, flags, req_id },
        ),
        (PendingModel::Move { mailbox, uid, dest, req_id }, ReplyModel::Moved) => Some(
            ImapEventModel::Moved { mailbox, uid, dest, req_id },
        ),
        (PendingModel::Unread, ReplyModel::Unread(counts)) => Some(
            ImapEventModel::UnreadCounts(counts),
        ),
        _ => None,
    }
}

/// An event to emit, if there is one.
pub open spec fn emitted(event: Option<ImapEventModel>) -> Seq<ActorActionModel> {
    match event {
        Some(e) => seq![ActorActionModel::Emit(e)],
        None => seq![],
    }
}

/// Whether a command is background work that never opens a connection.
pub open spec fn is_background(cmd: ImapCommandModel) -> bool {
    cmd is PollMailbox || cmd is FetchNewHeaders
}

// ── The transition ──────────────────────────────────────────────────────────

impl ActorModel {
    /// A session that has not connected yet.
    pub open spec fn fresh() -> ActorModel {
        ActorModel {
            connected: false,
            credentials: None,
            has_worker: false,
            phase: PhaseModel::Idle,
        }
    }

    /// While a connection is being retried, the credentials are known, the
    /// number of attempts is within its limit, and the wait is that of the
    /// attempt.
    pub open spec fn wf(self) -> bool {
        match self.phase {
            PhaseModel::Reconnecting { job, attempt, delay } => self.credentials is Some && 1 <= attempt
                <= MAX_RECONNECT_ATTEMPTS && delay == delay_after(attempt as nat),
            PhaseModel::Backoff { job, attempt, delay } => self.credentials is Some && 1 <= attempt
                < MAX_RECONNECT_ATTEMPTS && delay == delay_after(attempt as nat),
            _ => true,
        }
    }

    /// The session with another phase.
    pub open spec fn in_phase(self, phase: PhaseModel) -> ActorModel {
        ActorModel { phase, ..self }
    }

    /// A command starts.
    pub open spec fn started(self, cmd: ImapCommandModel) -> (ActorModel, Seq<ActorActionModel>) {
        match cmd {
            ImapCommandModel::Connect(c) => (
                self.in_phase(PhaseModel::SigningIn(c)),
                seq![ActorActionModel::Connect(c)],
            ),
            ImapCommandModel::FetchBody { mailbox, uid, req_id } => (
                self,
                if self.has_worker {
                    seq![
                        ActorActionModel::ToWorker(
                            WorkerCommandModel::FetchBody { mailbox, uid, req_id },
                        ),
                    ]
                } else {
                    seq![
                        ActorActionModel::Emit(
                            ImapEventModel::BodyFailed { uid, req_id, error: "not connected"@ },
                        ),
                    ]
                },
            ),
            ImapCommandModel::BulkDownload { mailbox } => (
                self,
                if self.has_worker {
                    seq![ActorActionModel::ToWorker(WorkerCommandModel::BulkDownload { mailbox })]
                } else {
                    seq![ActorActionModel::Emit(ImapEventModel::Error("not connected"@))]
                },
            ),
            ImapCommandModel::ExportMessage { mailbox, uid, path } => (
                self,
                if self.has_worker {
                    seq![
                        ActorActionModel::ToWorker(
                            WorkerCommandModel::ExportMessage { mailbox, uid, path },
                        ),
                    ]
                } else {
                    seq![
                        ActorActionModel::Emit(
                            ImapEventModel::ExportFailed { error: "not connected"@ },
                        ),
                    ]
                },
            ),
            _ => if self.connected {
                (
                    self.in_phase(PhaseModel::Working(pending_of(cmd))),
                    seq![ActorActionModel::Perform(cmd)],
                )
            } else if is_background(cmd) {
                (self, seq![])
            } else {
                match self.credentials {
                    Some(c) => (
                        self.in_phase(PhaseModel::Reconnecting { job: cmd, attempt: 1, delay: 1 }),
                        seq![
                            ActorActionModel::Emit(ImapEventModel::Disconnected),
                            ActorActionModel::Connect(c),
                        ],
                    ),
                    None => (self, emitted(failure(pending_of(cmd), "not connected yet"@))),
                }
            },
        }
    }

    /// The session after an input, and what to do. An input that the phase
    /// does not wait for has no effect.
    pub open spec fn step(self, input: ActorInputModel) -> (ActorModel, Seq<ActorActionModel>) {
        match (self.phase, input) {
            (PhaseModel::Idle, ActorInputModel::Command(cmd)) => self.started(cmd),
            (PhaseModel::SigningIn(c), ActorInputModel::Connected) => (
                ActorModel {
                    connected: true,
                    credentials: Some(c),
                    has_worker: true,
                    phase: PhaseModel::Idle,
                },
                seq![
                    ActorActionModel::StartWorker(c),
                    ActorActionModel::Emit(ImapEventModel::Connected),
                ],
            ),
            (PhaseModel::SigningIn(c), ActorInputModel::ConnectFailed { error, permanent }) => (
                self.in_phase(PhaseModel::Idle),
                seq![ActorActionModel::Emit(ImapEventModel::Error(error))],
            ),
            (PhaseModel::Reconnecting { job, attempt, delay }, ActorInputModel::Connected) => (
                ActorModel {
                    connected: true,
                    phase: PhaseModel::Working(pending_of(job)),
                    ..self
                },
                seq![
                    ActorActionModel::Emit(ImapEventModel::Connected),
                    ActorActionModel::Perform(job),
                ],
            ),
            (
                PhaseModel::Reconnecting { job, attempt, delay },
                ActorInputModel::ConnectFailed { error, permanent },
            ) => if permanent || attempt >= MAX_RECONNECT_ATTEMPTS {
                (self.in_phase(PhaseModel::Idle), emitted(failure(pending_of(job), error)))
            } else {
                (
                    self.in_phase(PhaseModel::Backoff { job, attempt, delay }),
                    seq![ActorActionModel::Sleep(delay)],
                )
            },
            (PhaseModel::Backoff { job, attempt, delay }, ActorInputModel::Slept) => (
                self.in_phase(
                    PhaseModel::Reconnecting {
                        job,
                        attempt: (attempt + 1) as u32,
                        delay: doubled(delay as nat) as u64,
                    },
                ),
                match self.credentials {
                    Some(c) => seq![ActorActionModel::Connect(c)],
                    None => seq![],
                },
            ),
            (PhaseModel::Working(pending), ActorInputModel::Done(reply)) => (
                self.in_phase(PhaseModel::Idle),
                emitted(success(pending, reply)),
            ),
            (PhaseModel::Working(pending), ActorInputModel::Failed(error)) => (
                ActorModel { connected: false, phase: PhaseModel::Idle, ..self },
                seq![ActorActionModel::DropSession] + emitted(failure(pending, error)),
            ),
            _ => (self, seq![]),
        }
    }
}

// ── Executable ──────────────────────────────────────────────────────────────

/// What is known of a command when its reply comes in.
fn remember(cmd: &ImapCommand) -> (r: Pending)
    ensures
        r@ == pending_of(cmd@),
{
    match cmd {
        ImapCommand::FetchMailboxes => Pending::Mailboxes,
        ImapCommand::FetchHeaders { mailbox, page, req_id } => Pending::Headers {
            mailbox: mailbox.clone(),
            page: *page,
            req_id: *req_id,
        },
        ImapCommand::PollMailbox { mailbox } => Pending::Poll { mailbox: mailbox.clone() },
        ImapCommand::FetchNewHeaders { mailbox, first_uid: _ } => Pending::NewHeaders {
            mailbox: mailbox.clone(),
        },
        ImapCommand::FetchHeadersFrom { mailbox, first_uid: _ } => Pending::HeadersFrom {
            mailbox: mailbox.clone(),
        },
        ImapCommand::Append { mailbox, raw: _ } => Pending::Append { mailbox: mailbox.clone() },
        ImapCommand::StoreFlags { mailbox, uid, add: _, remove: _, req_id } => Pending::Flags {
            mailbox: mailbox.clone(),
            uid: *uid,
            req_id: *req_id,
        },
        ImapCommand::MoveMessage { mailbox, uid, dest, req_id } => Pending::Move {
            mailbox: mailbox.clone(),
            uid: *uid,
            dest: dest.clone(),
            req_id: *req_id,
        },
        ImapCommand::FetchUnreadCounts { mailboxes: _ } => Pending::Unread,
        _ => Pending::Other,
    }
}

/// The event that reports a command's failure, if any.
fn failed(pending: Pending, error: String) -> (r: Vec<ActorAction>)
    ensures
        r.deep_view() == emitted(failure(pending@, error@)),
{
    let event = match pending {
        Pending::Mailboxes => ImapEvent::Error(error),
        Pending::Headers { mailbox: _, page: _, req_id: _ } => ImapEvent::Error(error),
        Pending::HeadersFrom { mailbox: _ } => ImapEvent::Error(error),
        Pending::Poll { mailbox: _ } => ImapEvent::PollFailed(error),
        Pending::NewHeaders { mailbox: _ } => ImapEvent::PollFailed(error),
        Pending::Append { mailbox } => ImapEvent::AppendFailed { mailbox, error },
        Pending::Flags { mailbox, uid, req_id } => ImapEvent::FlagsUpdateFailed {
            mailbox,
            uid,
            error,
            req_id,
        },
        Pending::Move { mailbox, uid, dest: _, req_id } => ImapEvent::MoveFailed {
            mailbox,
            uid,
            error,
            req_id,
        },
        Pending::Unread => {
            return nothing();
        },
        Pending::Other => {
            return nothing();
        },
    };
    one(ActorAction::Emit(event))
}

/// The event that passes a reply on, if any.
fn succeeded(pending: Pending, reply: Reply) -> (r: Vec<ActorAction>)
    ensures
        r.deep_view() == emitted(success(pending@, reply@)),
{
    let event = match (pending, reply) {
        (Pending::Mailboxes, Reply::Mailboxes(list)) => ImapEvent::Mailboxes(list),
        (Pending::Headers { mailbox, page, req_id }, Reply::Headers { headers, total_pages, state }) => ImapEvent::Headers {
            mailbox,
            headers,
            page,
            total_pages,
            req_id,
            mailbox_state: state,
        },
        (Pending::Poll { mailbox }, Reply::Polled(state)) => ImapEvent::MailboxPolled { mailbox, state },
        (Pending::NewHeaders { mailbox }, Reply::Envelopes(headers)) => ImapEvent::NewHeaders {
            mailbox,
            headers,
        },
        (Pending::HeadersFrom { mailbox }, Reply::Envelopes(headers)) => ImapEvent::HeadersFrom {
            mailbox,
            headers,
        },
        (Pending::Append { mailbox }, Reply::Appended) => ImapEvent::Appended { mailbox },
        (Pending::Flags { mailbox, uid, req_id }, Reply::Flags(flags)) => ImapEvent::FlagsUpdated {
            mailbox,
            uid,
            flags,
            req_id,
        },
        (Pending::Move { mailbox, uid, dest, req_id }, Reply::Moved) => ImapEvent::Moved {
            mailbox,
            uid,
            dest,
            req_id,
        },
        (Pending::Unread, Reply::Unread(counts)) => ImapEvent::UnreadCounts(counts),
        _ => {
            return nothing();
        },
    };
    one(ActorAction::Emit(event))
}

/// No action.
fn nothing() -> (r: Vec<ActorAction>)
    ensures
        r.deep_view() == Seq::<ActorActionModel>::empty(),
{
    let r: Vec<ActorAction> = Vec::new();
    assert(r.deep_view() =~= Seq::<ActorActionModel>::empty());
    r
}

/// One action.
fn one(action: ActorAction) -> (r: Vec<ActorAction>)
    ensures
        r.deep_view() == seq![action@],
{
    let r = vec![action];
    assert(r.deep_view() =~= seq![action@]);
    r
}

/// Two actions.
fn two(first: ActorAction, second: ActorAction) -> (r: Vec<ActorAction>)
    ensures
        r.deep_view() == seq![first@, second@],
{
    let r = vec![first, second];
    assert(r.deep_view() =~= seq![first@, second@]);
    r
}

impl ImapActor {
    /// A session that has not connected yet.
    pub fn new() -> (r: Self)
        ensures
            r@ == ActorModel::fresh(),
            r@.wf(),
    {
        ImapActor { connected: false, credentials: None, has_worker: false, phase: Phase::Idle }
    }

    /// A command starts.
    fn start(&mut self, cmd: ImapCommand) -> (r: Vec<ActorAction>)
        ensures
            final(self)@ == old(self)@.started(cmd@).0,
            r.deep_view() == old(self)@.started(cmd@).1,
    {
        match cmd {
            ImapCommand::Connect(c) => {
                self.phase = Phase::SigningIn(c.clone());
                one(ActorAction::Connect(c))
            },
            ImapCommand::FetchBody { mailbox, uid, req_id } => {
                if self.has_worker {
                    one(ActorAction::ToWorker(WorkerCommand::FetchBody { mailbox, uid, req_id }))
                } else {
                    one(
                        ActorAction::Emit(
                            ImapEvent::BodyFailed { uid, req_id, error: "not connected".to_owned() },
                        ),
                    )
                }
            },
            ImapCommand::BulkDownload { mailbox } => {
                if self.has_worker {
                    one(ActorAction::ToWorker(WorkerCommand::BulkDownload { mailbox }))
                } else {
                    one(ActorAction::Emit(ImapEvent::Error("not connected".to_owned())))
                }
            },
            ImapCommand::ExportMessage { mailbox, uid, path } => {
                if self.has_worker {
                    one(ActorAction::ToWorker(WorkerCommand::ExportMessage { mailbox, uid, path }))
                } else {
                    one(
                        ActorAction::Emit(
                            ImapEvent::ExportFailed { error: "not connected".to_owned() },
                        ),
                    )
                }
            },
            cmd => {
                if self.connected {
                    self.phase = Phase::Working(remember(&cmd));
                    return one(ActorAction::Perform(cmd));
                }
                let background = match &cmd {
                    ImapCommand::PollMailbox { mailbox: _ } => true,
                    ImapCommand::FetchNewHeaders { mailbox: _, first_uid: _ } => true,
                    _ => false,
                };
                if background {
                    return nothing();
                }
                match &self.credentials {
                    Some(c) => {
                        let c = c.clone();
                        self.phase = Phase::Reconnecting { job: cmd, attempt: 1, delay: 1 };
                        two(ActorAction::Emit(ImapEvent::Disconnected), ActorAction::Connect(c))
                    },
                    None => failed(remember(&cmd), "not connected yet".to_owned()),
                }
            },
        }
    }

    /// Takes in what happened outside and tells what to do next.
    pub fn step(&mut self, input: ActorInput) -> (r: Vec<ActorAction>)
        requires
            old(self)@.wf(),
        ensures
            final(self)@.wf(),
            final(self)@ == old(self)@.step(input@).0,
            r.deep_view() == old(self)@.step(input@).1,
    {
        let ghost before = self@;
        let mut phase = Phase::Idle;
        std::mem::swap(&mut phase, &mut self.phase);
        match (phase, input) {
            (Phase::Idle, ActorInput::Command(cmd)) => {
                assert(self@ =~= before);
                self.start(cmd)
            },
            (Phase::SigningIn(c), ActorInput::Connected) => {
                self.connected = true;
                self.credentials = Some(c.clone());
                self.has_worker = true;
                two(ActorAction::StartWorker(c), ActorAction::Emit(ImapEvent::Connected))
            },
            (Phase::SigningIn(_), ActorInput::ConnectFailed { error, permanent: _ }) => {
                one(ActorAction::Emit(ImapEvent::Error(error)))
            },
            (Phase::Reconnecting { job, attempt: _, delay: _ }, ActorInput::Connected) => {
                self.connected = true;
                self.phase = Phase::Working(remember(&job));
                two(ActorAction::Emit(ImapEvent::Connected), ActorAction::Perform(job))
            },
            (
                Phase::Reconnecting { job, attempt, delay },
                ActorInput::ConnectFailed { error, permanent },
            ) => {
                if permanent || attempt >= MAX_RECONNECT_ATTEMPTS {
                    failed(remember(&job), error)
                } else {
                    self.phase = Phase::Backoff { job, attempt, delay };
                    one(ActorAction::Sleep(delay))
                }
            },
            (Phase::Backoff { job, attempt, delay }, ActorInput::Slept) => {
                let next: u64 = double(delay);
                self.phase = Phase::Reconnecting { job, attempt: attempt + 1, delay: next };
                match &self.credentials {
                    Some(c) => one(ActorAction::Connect(c.clone())),
                    None => nothing(),
                }
            },
            (Phase::Working(pending), ActorInput::Done(reply)) => succeeded(pending, reply),
            (Phase::Working(pending), ActorInput::Failed(error)) => {
                self.connected = false;
                let mut r = one(ActorAction::DropSession);
                let mut told = failed(pending, error);
                let ghost dropped = r.deep_view();
                let ghost rest = told.deep_view();
                r.append(&mut told);
                assert(r.deep_view() =~= dropped + rest);
                r
            },
            (phase, _) => {
                self.phase = phase;
                nothing()
            },
        }
    }
}

// ── Laws ────────────────────────────────────────────────────────────────────

/// A background poll never opens a connection: without a session it is dropped
/// and nothing changes.
pub proof fn law_polls_never_reconnect(a: ActorModel, cmd: ImapCommandModel)
    requires
        is_background(cmd),
        a.phase is Idle,
        !a.connected,
    ensures
        a.step(ActorInputModel::Command(cmd)) == (a, Seq::<ActorActionModel>::empty()),
{
}

/// A revoked sign-in ends the retries at once, whatever the attempt.
pub proof fn law_permanent_errors_are_not_retried(
    a: ActorModel,
    job: ImapCommandModel,
    attempt: u32,
    delay: u64,
    error: Text,
)
    requires
        a.phase == (PhaseModel::Reconnecting { job, attempt, delay }),
    ensures
        a.step(ActorInputModel::ConnectFailed { error, permanent: true }) == (
            a.in_phase(PhaseModel::Idle),
            emitted(failure(pending_of(job), error)),
        ),
{
}

/// A lost session only affects the session: the credentials and the download
/// connection stay, so the next command can reconnect.
pub proof fn law_losing_the_session_keeps_the_account(
    a: ActorModel,
    pending: PendingModel,
    error: Text,
)
    requires
        a.phase == PhaseModel::Working(pending),
    ensures
        a.step(ActorInputModel::Failed(error)).0 == (ActorModel {
            connected: false,
            phase: PhaseModel::Idle,
            ..a
        }),
{
}

/// Whether an event answers a command: it names what the command asked about.
pub open spec fn answers(pending: PendingModel, event: ImapEventModel) -> bool {
    match (pending, event) {
        (PendingModel::Flags { mailbox, uid, req_id }, ImapEventModel::FlagsUpdated { mailbox: m, uid: u, req_id: r, .. }) => m
            == mailbox && u == uid && r == req_id,
        (PendingModel::Flags { mailbox, uid, req_id }, ImapEventModel::FlagsUpdateFailed { mailbox: m, uid: u, req_id: r, .. }) => m
            == mailbox && u == uid && r == req_id,
        (PendingModel::Move { mailbox, uid, dest, req_id }, ImapEventModel::Moved { mailbox: m, uid: u, dest: d, req_id: r }) => m
            == mailbox && u == uid && d == dest && r == req_id,
        (PendingModel::Move { mailbox, uid, dest, req_id }, ImapEventModel::MoveFailed { mailbox: m, uid: u, req_id: r, .. }) => m
            == mailbox && u == uid && r == req_id,
        (PendingModel::Headers { mailbox, page, req_id }, ImapEventModel::Headers { mailbox: m, page: p, req_id: r, .. }) => m
            == mailbox && p == page && r == req_id,
        (PendingModel::Append { mailbox }, ImapEventModel::Appended { mailbox: m }) => m == mailbox,
        (PendingModel::Append { mailbox }, ImapEventModel::AppendFailed { mailbox: m, .. }) => m
            == mailbox,
        (PendingModel::Poll { mailbox }, ImapEventModel::MailboxPolled { mailbox: m, .. }) => m == mailbox,
        (PendingModel::NewHeaders { mailbox }, ImapEventModel::NewHeaders { mailbox: m, .. }) => m
            == mailbox,
        (PendingModel::HeadersFrom { mailbox }, ImapEventModel::HeadersFrom { mailbox: m, .. }) => m
            == mailbox,
        (PendingModel::Mailboxes, ImapEventModel::Mailboxes(_)) => true,
        (PendingModel::Unread, ImapEventModel::UnreadCounts(_)) => true,
        (
            PendingModel::Mailboxes | PendingModel::Headers { .. } | PendingModel::HeadersFrom { .. },
            ImapEventModel::Error(_),
        ) => true,
        (PendingModel::Poll { .. } | PendingModel::NewHeaders { .. }, ImapEventModel::PollFailed(_)) => true,
        _ => false,
    }
}

/// Every event that a command's outcome leads to answers that command, and a
/// failure is always reported, except of background counting.
pub proof fn law_outcomes_answer_their_command(
    pending: PendingModel,
    reply: ReplyModel,
    error: Text,
)
    ensures
        success(pending, reply) matches Some(event) ==> answers(pending, event),
        failure(pending, error) matches Some(event) ==> answers(pending, event),
        failure(pending, error) is None <==> pending is Unread || pending is Other,
{
}

/// A command that needs the session and finds it lost is retried on every
/// failure until the attempts are used up: its outcome is then reported.
pub proof fn law_attempts_are_bounded(a: ActorModel, input: ActorInputModel)
    requires
        a.wf(),
    ensures
        a.step(input).0.wf(),
        a.step(input).0.phase matches PhaseModel::Reconnecting { attempt, .. } ==> attempt
            <= MAX_RECONNECT_ATTEMPTS,
{
    reveal_with_fuel(delay_after, 2);
    lemma_delay_bounded(1);
    if let PhaseModel::Backoff { job, attempt, delay } = a.phase {
        lemma_delay_bounded((attempt + 1) as nat);
    }
}

// ── What a run of commands is told ──────────────────────────────────────────

/// A command that was taken on, and every event that was told until the next
/// one was.
#[verifier::ext_equal]
pub struct Entry {
    pub cmd: ImapCommandModel,
    pub events: Seq<ImapEventModel>,
}

/// The events among some actions.
pub open spec fn events_of(actions: Seq<ActorActionModel>) -> Seq<ImapEventModel>
    decreases actions.len(),
{
    if actions.len() == 0 {
        seq![]
    } else {
        let before = events_of(actions.drop_last());
        match actions.last() {
            ActorActionModel::Emit(event) => before.push(event),
            _ => before,
        }
    }
}

/// Whether a command runs on the session itself, rather than opening it or being
/// handed to the download connection.
pub open spec fn needs_session(cmd: ImapCommandModel) -> bool {
    !(cmd is Connect) && !(cmd is FetchBody) && !(cmd is BulkDownload) && !(cmd is ExportMessage)
}

/// What a command was told about itself, past the news that the session was lost
/// and opened again.
pub open spec fn about_itself(events: Seq<ImapEventModel>) -> Seq<ImapEventModel> {
    if events.len() > 0 && events[0] is Disconnected {
        if events.len() > 1 && events[1] is Connected {
            events.skip(2)
        } else {
            events.skip(1)
        }
    } else {
        events
    }
}

/// Whether a command got what it is owed: a connection is opened or the reason
/// told, what goes to the download connection is refused at most once and by its
/// own ids, and what runs on the session is answered exactly once. Only a count
/// of unread messages may fail silently, and only a poll without a session may be
/// dropped.
pub open spec fn answered(entry: Entry) -> bool {
    let events = entry.events;
    match entry.cmd {
        ImapCommandModel::Connect(_) => events.len() == 1 && (events[0] is Connected
            || events[0] is Error),
        ImapCommandModel::FetchBody { mailbox, uid, req_id } => events.len() == 0 || (events.len() == 1
            && (events[0] matches ImapEventModel::BodyFailed { uid: u, req_id: r, .. } && u == uid && r
            == req_id)),
        ImapCommandModel::BulkDownload { .. } => events.len() == 0 || (events.len() == 1
            && events[0] is Error),
        ImapCommandModel::ExportMessage { .. } => events.len() == 0 || (events.len() == 1
            && events[0] is ExportFailed),
        _ => {
            let told = about_itself(events);
            if told.len() == 0 {
                entry.cmd is FetchUnreadCounts || (is_background(entry.cmd) && events.len() == 0)
            } else {
                told.len() == 1 && answers(pending_of(entry.cmd), told[0])
            }
        },
    }
}

/// Whether a command is the one a phase works on, with what it was told so far:
/// at most that the session was lost and opened again.
pub open spec fn in_progress(phase: PhaseModel, entry: Entry) -> bool {
    match phase {
        PhaseModel::Idle => answered(entry),
        PhaseModel::SigningIn(c) => entry.cmd == ImapCommandModel::Connect(c) && entry.events.len() == 0,
        PhaseModel::Reconnecting { job, .. } | PhaseModel::Backoff { job, .. } => {
            &&& entry.cmd == job
            &&& needs_session(job) && !is_background(job)
            &&& entry.events == seq![ImapEventModel::Disconnected]
        },
        PhaseModel::Working(pending) => {
            &&& needs_session(entry.cmd)
            &&& pending_of(entry.cmd) == pending
            &&& entry.events.len() == 0 || entry.events == seq![
                ImapEventModel::Disconnected,
                ImapEventModel::Connected,
            ]
        },
    }
}

impl ActorModel {
    /// The session after a run of inputs.
    pub open spec fn after(self, inputs: Seq<ActorInputModel>) -> ActorModel
        decreases inputs.len(),
    {
        if inputs.len() == 0 {
            self
        } else {
            self.after(inputs.drop_last()).step(inputs.last()).0
        }
    }

    /// The commands that a run takes on, in their order, with what each is told.
    pub open spec fn log(self, inputs: Seq<ActorInputModel>) -> Seq<Entry>
        decreases inputs.len(),
    {
        if inputs.len() == 0 {
            seq![]
        } else {
            let before = self.log(inputs.drop_last());
            let a = self.after(inputs.drop_last());
            let events = events_of(a.step(inputs.last()).1);
            match (a.phase, inputs.last()) {
                (PhaseModel::Idle, ActorInputModel::Command(cmd)) => before.push(Entry { cmd, events }),
                _ => if before.len() == 0 {
                    before
                } else {
                    before.drop_last().push(
                        Entry { cmd: before.last().cmd, events: before.last().events + events },
                    )
                },
            }
        }
    }

    /// Whether an input can come: a reply is one that the running command asks
    /// for.
    pub open spec fn awaits(self, input: ActorInputModel) -> bool {
        match (self.phase, input) {
            (PhaseModel::Working(pending), ActorInputModel::Done(reply)) => success(
                pending,
                reply,
            ) is Some,
            _ => true,
        }
    }
}

proof fn lemma_events_of(event: ImapEventModel, other: ActorActionModel)
    requires
        !(other is Emit),
    ensures
        events_of(seq![ActorActionModel::Emit(event)]) == seq![event],
        events_of(seq![other]).len() == 0,
        events_of(seq![ActorActionModel::Emit(event), other]) == seq![event],
        events_of(seq![other, ActorActionModel::Emit(event)]) == seq![event],
        events_of(Seq::<ActorActionModel>::empty()).len() == 0,
{
    let none: Seq<ImapEventModel> = seq![];
    let e = ActorActionModel::Emit(event);
    assert(seq![e].drop_last() =~= seq![]);
    assert(seq![other].drop_last() =~= seq![]);
    assert(seq![e, other].drop_last() =~= seq![e]);
    assert(seq![other, e].drop_last() =~= seq![other]);
    assert(events_of(seq![]) =~= none);
    assert(events_of(seq![other]) =~= none);
    assert(none.push(event) =~= seq![event]);
    assert(events_of(seq![e]) == seq![event]);
}

/// The events of a step that ends a command.
proof fn lemma_emitted(event: Option<ImapEventModel>)
    ensures
        events_of(emitted(event)) == (match event {
            Some(e) => seq![e],
            None => seq![],
        }),
        events_of(seq![ActorActionModel::DropSession] + emitted(event)) == (match event {
            Some(e) => seq![e],
            None => seq![],
        }),
{
    match event {
        Some(e) => {
            lemma_events_of(e, ActorActionModel::DropSession);
            assert(seq![ActorActionModel::DropSession] + emitted(event) =~= seq![
                ActorActionModel::DropSession,
                ActorActionModel::Emit(e),
            ]);
        },
        None => {
            lemma_events_of(ImapEventModel::Connected, ActorActionModel::DropSession);
            assert(seq![ActorActionModel::DropSession] + emitted(event) =~= seq![
                ActorActionModel::DropSession,
            ]);
            assert(events_of(seq![ActorActionModel::DropSession]) =~= seq![]);
            assert(events_of(Seq::<ActorActionModel>::empty()) =~= seq![]);
        },
    }
}

/// A command that is taken on is answered at once or in progress.
proof fn lemma_taken(a: ActorModel, cmd: ImapCommandModel)
    requires
        a.phase is Idle,
    ensures
        in_progress(
            a.started(cmd).0.phase,
            Entry { cmd, events: events_of(a.started(cmd).1) },
        ),
{
    let (next, actions) = a.started(cmd);
    lemma_emitted(failure(pending_of(cmd), "not connected yet"@));
    if actions.len() == 1 {
        let event = match actions[0] {
            ActorActionModel::Emit(e) => e,
            _ => ImapEventModel::Connected,
        };
        let other = match actions[0] {
            ActorActionModel::Emit(_) => ActorActionModel::DropSession,
            action => action,
        };
        lemma_events_of(event, other);
        assert(actions =~= seq![actions[0]]);
    } else if actions.len() == 2 {
        lemma_events_of(ImapEventModel::Disconnected, actions[1]);
        assert(actions =~= seq![actions[0], actions[1]]);
    } else {
        lemma_events_of(ImapEventModel::Connected, ActorActionModel::DropSession);
        assert(actions =~= seq![]);
    }
}

/// A step past the taking of a command answers it or stays in progress.
proof fn lemma_continued(a: ActorModel, input: ActorInputModel, entry: Entry)
    requires
        in_progress(a.phase, entry),
        a.awaits(input),
        !(a.phase is Idle && input is Command),
    ensures
        in_progress(
            a.step(input).0.phase,
            Entry { cmd: entry.cmd, events: entry.events + events_of(a.step(input).1) },
        ),
{
    let (next, actions) = a.step(input);
    let events = events_of(actions);
    let all = entry.events + events;
    lemma_events_of(ImapEventModel::Connected, ActorActionModel::DropSession);
    if actions.len() == 0 {
        assert(actions =~= seq![]);
        assert(all =~= entry.events);
    }
    match (a.phase, input) {
        (PhaseModel::SigningIn(c), ActorInputModel::Connected) => {
            lemma_events_of(ImapEventModel::Connected, ActorActionModel::StartWorker(c));
            assert(all =~= seq![ImapEventModel::Connected]);
        },
        (PhaseModel::SigningIn(c), ActorInputModel::ConnectFailed { error, permanent }) => {
            lemma_events_of(ImapEventModel::Error(error), ActorActionModel::DropSession);
            assert(all =~= seq![ImapEventModel::Error(error)]);
        },
        (PhaseModel::Reconnecting { job, attempt, delay }, ActorInputModel::Connected) => {
            lemma_events_of(ImapEventModel::Connected, ActorActionModel::Perform(job));
            assert(all =~= seq![ImapEventModel::Disconnected, ImapEventModel::Connected]);
        },
        (
            PhaseModel::Reconnecting { job, attempt, delay },
            ActorInputModel::ConnectFailed { error, permanent },
        ) => {
            if permanent || attempt >= MAX_RECONNECT_ATTEMPTS {
                let event = failure(pending_of(job), error);
                lemma_emitted(event);
                law_outcomes_answer_their_command(pending_of(job), ReplyModel::Moved, error);
                assert(about_itself(all) =~= events);
            } else {
                lemma_events_of(ImapEventModel::Connected, ActorActionModel::Sleep(delay));
                assert(all =~= entry.events);
            }
        },
        (PhaseModel::Backoff { job, attempt, delay }, ActorInputModel::Slept) => {
            if let Some(c) = a.credentials {
                lemma_events_of(ImapEventModel::Connected, ActorActionModel::Connect(c));
            }
            assert(all =~= entry.events);
        },
        (PhaseModel::Working(pending), ActorInputModel::Done(reply)) => {
            lemma_emitted(success(pending, reply));
            law_outcomes_answer_their_command(pending, reply, seq![]);
            assert(about_itself(all) =~= events);
        },
        (PhaseModel::Working(pending), ActorInputModel::Failed(error)) => {
            lemma_emitted(failure(pending, error));
            law_outcomes_answer_their_command(pending, ReplyModel::Moved, error);
            assert(about_itself(all) =~= events);
        },
        _ => {
            assert(all =~= entry.events);
        },
    }
}

/// Over any run of inputs, every command that is taken on gets what it is owed,
/// in the order of the commands, before the next one is taken on; the one that is
/// being worked on was told at most that the session was lost and opened again.
/// So the news that the session was lost is always followed by the news that it
/// is open again or by the command's own failure.
pub proof fn law_each_command_is_answered_once_in_order(inputs: Seq<ActorInputModel>)
    requires
        forall|i: int|
            0 <= i < inputs.len() ==> ActorModel::fresh().after(inputs.take(i)).awaits(
                #[trigger] inputs[i],
            ),
    ensures
        ({
            let log = ActorModel::fresh().log(inputs);
            let phase = ActorModel::fresh().after(inputs).phase;
            &&& forall|i: int| 0 <= i < log.len() - 1 ==> answered(#[trigger] log[i])
            &&& log.len() > 0 ==> in_progress(phase, log.last())
            &&& log.len() == 0 ==> phase is Idle
        }),
    decreases inputs.len(),
{
    let fresh = ActorModel::fresh();
    if inputs.len() > 0 {
        let few = inputs.drop_last();
        let input = inputs.last();
        assert forall|i: int| 0 <= i < few.len() implies fresh.after(few.take(i)).awaits(
            #[trigger] few[i],
        ) by {
            assert(few.take(i) =~= inputs.take(i));
            assert(few[i] == inputs[i]);
        }
        law_each_command_is_answered_once_in_order(few);
        assert(inputs.take(inputs.len() - 1) =~= few);
        assert(inputs[inputs.len() - 1] == input);
        let a = fresh.after(few);
        let before = fresh.log(few);
        let log = fresh.log(inputs);
        assert(a.awaits(input));
        if a.phase is Idle && input is Command {
            let cmd = input->Command_0;
            lemma_taken(a, cmd);
            assert forall|i: int| 0 <= i < log.len() - 1 implies answered(#[trigger] log[i]) by {
                assert(log[i] == before[i]);
            }
        } else if before.len() > 0 {
            lemma_continued(a, input, before.last());
            assert forall|i: int| 0 <= i < log.len() - 1 implies answered(#[trigger] log[i]) by {
                assert(log[i] == before[i]);
            }
        }
    }
}

} // verus!
