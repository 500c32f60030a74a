//! The decisions of the connection that downloads messages, so that a slow
//! download never holds up the session that the lists are read from.
//!
//! Its reconnects are silent: a failure is told only to the request that hit
//! it.

use vstd::prelude::*;
use vstd::string::*;
use crate::actor;
use crate::events::{ImapEvent, ImapEventModel, WorkerCommand, WorkerCommandModel};
use crate::imap;
use crate::imap::{Attachment, AttachmentModel, FetchError, FetchedMessage, MailHeader, MailHeaderModel};
use crate::text;
use crate::text::Text;

verus! {

broadcast use vstd::string::group_string_axioms;

/// What happened outside.
pub enum WorkerInput {
    Command(WorkerCommand),
    Connected,
    /// It could not be opened. `permanent` if trying again cannot help.
    ConnectFailed { error: String, permanent: bool },
    /// The wait is over.
    Slept,
    /// A message was fetched and rendered.
    BodyFetched { html: String, attachments: Vec<Attachment> },
    /// A message's raw source was fetched.
    RawFetched(Vec<u8>),
    /// The file was written.
    Written,
    /// The file could not be written.
    WriteFailed(String),
    /// The whole mailbox was downloaded.
    BulkDone,
    /// The running command failed on the server side.
    Failed(String),
}

/// What a [`WorkerInput`] holds.
#[verifier::ext_equal]
pub enum WorkerInputModel {
    Command(WorkerCommandModel),
    Connected,
    ConnectFailed { error: Text, permanent: bool },
    Slept,
    BodyFetched { html: Text, attachments: Seq<AttachmentModel> },
    RawFetched(Seq<u8>),
    Written,
    WriteFailed(Text),
    BulkDone,
    Failed(Text),
}

impl View for WorkerInput {
    type V = WorkerInputModel;

    open spec fn view(&self) -> WorkerInputModel {
        match self {
            WorkerInput::Command(x) => WorkerInputModel::Command(x@),
            WorkerInput::Connected => WorkerInputModel::Connected,
            WorkerInput::ConnectFailed { error, permanent } => WorkerInputModel::ConnectFailed {
                error: error@,
                permanent: *permanent,
            },
            WorkerInput::Slept => WorkerInputModel::Slept,
            WorkerInput::BodyFetched { html, attachments } => WorkerInputModel::BodyFetched {
                html: html@,
                attachments: attachments.deep_view(),
            },
            WorkerInput::RawFetched(x) => WorkerInputModel::RawFetched(x@),
            WorkerInput::Written => WorkerInputModel::Written,
            WorkerInput::WriteFailed(x) => WorkerInputModel::WriteFailed(x@),
            WorkerInput::BulkDone => WorkerInputModel::BulkDone,
            WorkerInput::Failed(x) => WorkerInputModel::Failed(x@),
        }
    }
}

impl DeepView for WorkerInput {
    type V = WorkerInputModel;

    open spec fn deep_view(&self) -> WorkerInputModel {
        self.view()
    }
}

/// What to do outside.
pub enum WorkerAction {
    Emit(ImapEvent),
    /// Open a connection and sign in.
    Connect,
    /// Wait so many seconds.
    Sleep(u64),
    /// Drop the session.
    DropSession,
    /// Fetch and render a message.
    FetchBody { mailbox: String, uid: u32 },
    /// Fetch a message's raw source.
    FetchRaw { mailbox: String, uid: u32 },
    /// Write a file.
    WriteFile { path: String, data: Vec<u8> },
    /// Download a whole mailbox.
    Download { mailbox: String },
}

/// What a [`WorkerAction`] holds.
#[verifier::ext_equal]
pub enum WorkerActionModel {
    Emit(ImapEventModel),
    Connect,
    Sleep(u64),
    DropSession,
    FetchBody { mailbox: Text, uid: u32 },
    FetchRaw { mailbox: Text, uid: u32 },
    WriteFile { path: Text, data: Seq<u8> },
    Download { mailbox: Text },
}

impl View for WorkerAction {
    type V = WorkerActionModel;

    open spec fn view(&self) -> WorkerActionModel {
        match self {
            WorkerAction::Emit(x) => WorkerActionModel::Emit(x@),
            WorkerAction::Connect => WorkerActionModel::Connect,
            WorkerAction::Sleep(x) => WorkerActionModel::Sleep(*x),
            WorkerAction::DropSession => WorkerActionModel::DropSession,
            WorkerAction::FetchBody { mailbox, uid } => WorkerActionModel::FetchBody {
                mailbox: mailbox@,
                uid: *uid,
            },
            WorkerAction::FetchRaw { mailbox, uid } => WorkerActionModel::FetchRaw {
                mailbox: mailbox@,
                uid: *uid,
            },
            WorkerAction::WriteFile { path, data } => WorkerActionModel::WriteFile {
                path: path@,
                data: data@,
            },
            WorkerAction::Download { mailbox } => WorkerActionModel::Download {
                mailbox: mailbox@,
            },
        }
    }
}

impl DeepView for WorkerAction {
    type V = WorkerActionModel;

    open spec fn deep_view(&self) -> WorkerActionModel {
        self.view()
    }
}

/// Where the download connection stands.
pub enum WorkerPhase {
    Idle,
    Connecting { job: WorkerCommand, attempt: u32, delay: u64 },
    Backoff { job: WorkerCommand, attempt: u32, delay: u64 },
    Body { uid: u32, req_id: u64 },
    Export { path: String },
    Writing { path: String },
    Bulk,
}

/// What a [`WorkerPhase`] holds.
#[verifier::ext_equal]
pub enum WorkerPhaseModel {
    Idle,
    Connecting { job: WorkerCommandModel, attempt: u32, delay: u64 },
    Backoff { job: WorkerCommandModel, attempt: u32, delay: u64 },
    Body { uid: u32, req_id: u64 },
    Export { path: Text },
    Writing { path: Text },
    Bulk,
}

impl View for WorkerPhase {
    type V = WorkerPhaseModel;

    open spec fn view(&self) -> WorkerPhaseModel {
        match self {
            WorkerPhase::Idle => WorkerPhaseModel::Idle,
            WorkerPhase::Connecting { job, attempt, delay } => WorkerPhaseModel::Connecting {
                job: job@,
                attempt: *attempt,
                delay: *delay,
            },
            WorkerPhase::Backoff { job, attempt, delay } => WorkerPhaseModel::Backoff {
                job: job@,
                attempt: *attempt,
                delay: *delay,
            },
            WorkerPhase::Body { uid, req_id } => WorkerPhaseModel::Body {
                uid: *uid,
                req_id: *req_id,
            },
            WorkerPhase::Export { path } => WorkerPhaseModel::Export {
                path: path@,
            },
            WorkerPhase::Writing { path } => WorkerPhaseModel::Writing {
                path: path@,
            },
            WorkerPhase::Bulk => WorkerPhaseModel::Bulk,
        }
    }
}

impl DeepView for WorkerPhase {
    type V = WorkerPhaseModel;

    open spec fn deep_view(&self) -> WorkerPhaseModel {
        self.view()
    }
}

/// The download connection.
pub struct BodyWorker {
    connected: bool,
    phase: WorkerPhase,
}

/// What a [`BodyWorker`] holds.
#[verifier::ext_equal]
pub struct WorkerModel {
    pub connected: bool,
    pub phase: WorkerPhaseModel,
}

impl View for BodyWorker {
    type V = WorkerModel;

    closed spec fn view(&self) -> WorkerModel {
        WorkerModel { connected: self.connected, phase: self.phase@ }
    }
}

/// The event that reports that a command found no connection.
pub open spec fn unreachable_event(job: WorkerCommandModel, error: Text) -> ImapEventModel {
    let message = "could not open a connection for this request: "@ + error;
    match job {
        WorkerCommandModel::FetchBody { mailbox, uid, req_id } => ImapEventModel::BodyFailed {
            uid,
            req_id,
            error: message,
        },
        WorkerCommandModel::BulkDownload { mailbox } => ImapEventModel::Error(message),
        WorkerCommandModel::ExportMessage { mailbox, uid, path } => ImapEventModel::ExportFailed {
            error: message,
        },
    }
}

impl WorkerModel {
    /// A connection that has not been opened yet.
    pub open spec fn fresh() -> WorkerModel {
        WorkerModel { connected: false, phase: WorkerPhaseModel::Idle }
    }

    /// The attempts are within their limit and the wait is that of the attempt.
    pub open spec fn wf(self) -> bool {
        match self.phase {
            WorkerPhaseModel::Connecting { job, attempt, delay } => 1 <= attempt
                <= actor::MAX_RECONNECT_ATTEMPTS && delay == actor::delay_after(attempt as nat),
            WorkerPhaseModel::Backoff { job, attempt, delay } => 1 <= attempt
                < actor::MAX_RECONNECT_ATTEMPTS && delay == actor::delay_after(attempt as nat),
            _ => true,
        }
    }

    /// A command runs on the open connection.
    pub open spec fn running(self, job: WorkerCommandModel) -> (WorkerModel, Seq<WorkerActionModel>) {
        match job {
            WorkerCommandModel::FetchBody { mailbox, uid, req_id } => (
                WorkerModel { connected: true, phase: WorkerPhaseModel::Body { uid, req_id } },
                seq![WorkerActionModel::FetchBody { mailbox, uid }],
            ),
            WorkerCommandModel::ExportMessage { mailbox, uid, path } => (
                WorkerModel { connected: true, phase: WorkerPhaseModel::Export { path } },
                seq![WorkerActionModel::FetchRaw { mailbox, uid }],
            ),
            WorkerCommandModel::BulkDownload { mailbox } => (
                WorkerModel { connected: true, phase: WorkerPhaseModel::Bulk },
                seq![WorkerActionModel::Download { mailbox }],
            ),
        }
    }

    /// Back to waiting for commands, with one event told.
    pub open spec fn told(self, event: ImapEventModel) -> (WorkerModel, Seq<WorkerActionModel>) {
        (
            WorkerModel { phase: WorkerPhaseModel::Idle, ..self },
            seq![WorkerActionModel::Emit(event)],
        )
    }

    /// Back to waiting for commands, without the session, with one event told.
    pub open spec fn dropped(self, event: ImapEventModel) -> (WorkerModel, Seq<WorkerActionModel>) {
        (
            WorkerModel { connected: false, phase: WorkerPhaseModel::Idle },
            seq![WorkerActionModel::DropSession, WorkerActionModel::Emit(event)],
        )
    }

    /// The connection after an input, and what to do. An input that the phase
    /// does not wait for has no effect.
    pub open spec fn step(self, input: WorkerInputModel) -> (WorkerModel, Seq<WorkerActionModel>) {
        match (self.phase, input) {
            (WorkerPhaseModel::Idle, WorkerInputModel::Command(job)) => if self.connected {
                self.running(job)
            } else {
                (
                    WorkerModel {
                        phase: WorkerPhaseModel::Connecting { job, attempt: 1, delay: 1 },
                        ..self
                    },
                    seq![WorkerActionModel::Connect],
                )
            },
            (WorkerPhaseModel::Connecting { job, attempt, delay }, WorkerInputModel::Connected) => self.running(
                job,
            ),
            (
                WorkerPhaseModel::Connecting { job, attempt, delay },
                WorkerInputModel::ConnectFailed { error, permanent },
            ) => if permanent || attempt >= actor::MAX_RECONNECT_ATTEMPTS {
                self.told(unreachable_event(job, error))
            } else {
                (
                    WorkerModel { phase: WorkerPhaseModel::Backoff { job, attempt, delay }, ..self },
                    seq![WorkerActionModel::Sleep(delay)],
                )
            },
            (WorkerPhaseModel::Backoff { job, attempt, delay }, WorkerInputModel::Slept) => (
                WorkerModel {
                    phase: WorkerPhaseModel::Connecting {
                        job,
                        attempt: (attempt + 1) as u32,
                        delay: actor::doubled(delay as nat) as u64,
                    },
                    ..self
                },
                seq![WorkerActionModel::Connect],
            ),
            (
                WorkerPhaseModel::Body { uid, req_id },
                WorkerInputModel::BodyFetched { html, attachments },
            ) => self.told(ImapEventModel::Body { uid, html, attachments, req_id }),
            (WorkerPhaseModel::Body { uid, req_id }, WorkerInputModel::Failed(error)) => self.dropped(
                ImapEventModel::BodyFailed { uid, req_id, error },
            ),
            (WorkerPhaseModel::Export { path }, WorkerInputModel::RawFetched(data)) => (
                WorkerModel { phase: WorkerPhaseModel::Writing { path }, ..self },
                seq![WorkerActionModel::WriteFile { path, data }],
            ),
            (WorkerPhaseModel::Export { path }, WorkerInputModel::Failed(error)) => self.dropped(
                ImapEventModel::ExportFailed { error },
            ),
            (WorkerPhaseModel::Writing { path }, WorkerInputModel::Written) => self.told(
                ImapEventModel::Exported { path },
            ),
            (WorkerPhaseModel::Writing { path }, WorkerInputModel::WriteFailed(error)) => self.told(
                ImapEventModel::ExportFailed { error: "could not write "@ + path + ": "@ + error },
            ),
            (WorkerPhaseModel::Bulk, WorkerInputModel::BulkDone) => (
                WorkerModel { phase: WorkerPhaseModel::Idle, ..self },
                seq![],
            ),
            (WorkerPhaseModel::Bulk, WorkerInputModel::Failed(error)) => self.dropped(
                ImapEventModel::Error(error),
            ),
            _ => (self, seq![]),
        }
    }
}

/// One action.
fn one(action: WorkerAction) -> (r: Vec<WorkerAction>)
    ensures
        r.deep_view() == seq![action@],
{
    let r = vec![action];
    assert(r.deep_view() =~= seq![action@]);
    r
}

/// No action.
fn nothing() -> (r: Vec<WorkerAction>)
    ensures
        r.deep_view() == Seq::<WorkerActionModel>::empty(),
{
    let r: Vec<WorkerAction> = Vec::new();
    assert(r.deep_view() =~= Seq::<WorkerActionModel>::empty());
    r
}

/// The event that reports that a command found no connection.
fn no_connection(job: WorkerCommand, error: &str) -> (r: ImapEvent)
    ensures
        r@ == unreachable_event(job@, error@),
{
    let mut message = "could not open a connection for this request: ".to_owned();
    message.append(error);
    match job {
        WorkerCommand::FetchBody { mailbox: _, uid, req_id } => ImapEvent::BodyFailed {
            uid,
            req_id,
            error: message,
        },
        WorkerCommand::BulkDownload { mailbox: _ } => ImapEvent::Error(message),
        WorkerCommand::ExportMessage { mailbox: _, uid: _, path: _ } => ImapEvent::ExportFailed {
            error: message,
        },
    }
}

impl BodyWorker {
    /// A connection that has not been opened yet.
    pub fn new() -> (r: Self)
        ensures
            r@ == WorkerModel::fresh(),
            r@.wf(),
    {
        BodyWorker { connected: false, phase: WorkerPhase::Idle }
    }

    /// A command runs on the open connection.
    fn run(&mut self, job: WorkerCommand) -> (r: Vec<WorkerAction>)
        ensures
            final(self)@ == old(self)@.running(job@).0,
            r.deep_view() == old(self)@.running(job@).1,
    {
        self.connected = true;
        match job {
            WorkerCommand::FetchBody { mailbox, uid, req_id } => {
                self.phase = WorkerPhase::Body { uid, req_id };
                one(WorkerAction::FetchBody { mailbox, uid })
            },
            WorkerCommand::ExportMessage { mailbox, uid, path } => {
                self.phase = WorkerPhase::Export { path };
                one(WorkerAction::FetchRaw { mailbox, uid })
            },
            WorkerCommand::BulkDownload { mailbox } => {
                self.phase = WorkerPhase::Bulk;
                one(WorkerAction::Download { mailbox })
            },
        }
    }

    /// Back to waiting for commands, without the session, with one event told.
    fn drop_session(&mut self, event: ImapEvent) -> (r: Vec<WorkerAction>)
        ensures
            final(self)@ == old(self)@.dropped(event@).0,
            r.deep_view() == old(self)@.dropped(event@).1,
    {
        self.connected = false;
        self.phase = WorkerPhase::Idle;
        let r = vec![WorkerAction::DropSession, WorkerAction::Emit(event)];
        assert(r.deep_view() =~= seq![
            WorkerActionModel::DropSession,
            WorkerActionModel::Emit(event@),
        ]);
        r
    }

    /// Takes in what happened outside and tells what to do next.
    pub fn step(&mut self, input: WorkerInput) -> (r: Vec<WorkerAction>)
        requires
            old(self)@.wf(),
        ensures
            final(self)@.wf(),
            final(self)@ == old(self)@.step(input@).0,
            r.deep_view() == old(self)@.step(input@).1,
    {
        let ghost before = self@;
        let mut phase = WorkerPhase::Idle;
        std::mem::swap(&mut phase, &mut self.phase);
        match (phase, input) {
            (WorkerPhase::Idle, WorkerInput::Command(job)) => {
                assert(self@ =~= before);
                if self.connected {
                    self.run(job)
                } else {
                    self.phase = WorkerPhase::Connecting { job, attempt: 1, delay: 1 };
                    one(WorkerAction::Connect)
                }
            },
            (WorkerPhase::Connecting { job, attempt: _, delay: _ }, WorkerInput::Connected) => {
                self.run(job)
            },
            (
                WorkerPhase::Connecting { job, attempt, delay },
                WorkerInput::ConnectFailed { error, permanent },
            ) => {
                if permanent || attempt >= actor::MAX_RECONNECT_ATTEMPTS {
                    one(WorkerAction::Emit(no_connection(job, error.as_str())))
                } else {
                    self.phase = WorkerPhase::Backoff { job, attempt, delay };
                    one(WorkerAction::Sleep(delay))
                }
            },
            (WorkerPhase::Backoff { job, attempt, delay }, WorkerInput::Slept) => {
                let next: u64 = actor::double(delay);
                self.phase = WorkerPhase::Connecting { job, attempt: attempt + 1, delay: next };
                one(WorkerAction::Connect)
            },
            (WorkerPhase::Body { uid, req_id }, WorkerInput::BodyFetched { html, attachments }) => {
                one(WorkerAction::Emit(ImapEvent::Body { uid, html, attachments, req_id }))
            },
            (WorkerPhase::Body { uid, req_id }, WorkerInput::Failed(error)) => {
                self.drop_session(ImapEvent::BodyFailed { uid, req_id, error })
            },
            (WorkerPhase::Export { path }, WorkerInput::RawFetched(data)) => {
                self.phase = WorkerPhase::Writing { path: path.clone() };
                one(WorkerAction::WriteFile { path, data })
            },
            (WorkerPhase::Export { path: _ }, WorkerInput::Failed(error)) => {
                self.drop_session(ImapEvent::ExportFailed { error })
            },
            (WorkerPhase::Writing { path }, WorkerInput::Written) => {
                one(WorkerAction::Emit(ImapEvent::Exported { path }))
            },
            (WorkerPhase::Writing { path }, WorkerInput::WriteFailed(error)) => {
                let mut message = "could not write ".to_owned();
                message.append(path.as_str());
                message.append(": ");
                message.append(error.as_str());
                one(WorkerAction::Emit(ImapEvent::ExportFailed { error: message }))
            },
            (WorkerPhase::Bulk, WorkerInput::BulkDone) => nothing(),
            (WorkerPhase::Bulk, WorkerInput::Failed(error)) => {
                self.drop_session(ImapEvent::Error(error))
            },
            (phase, _) => {
                self.phase = phase;
                nothing()
            },
        }
    }
}

/// What a command asks to be told: whether a message could be had, or whether it
/// could be written to a file. The download of a mailbox reports its progress
/// and asks for no answer.
#[verifier::ext_equal]
pub enum Ask {
    Body { uid: u32, req_id: u64 },
    Export { path: Text },
}

/// What a command asks.
pub open spec fn asked(job: WorkerCommandModel) -> Seq<Ask> {
    match job {
        WorkerCommandModel::FetchBody { mailbox, uid, req_id } => seq![Ask::Body { uid, req_id }],
        WorkerCommandModel::ExportMessage { mailbox, uid, path } => seq![Ask::Export { path }],
        WorkerCommandModel::BulkDownload { mailbox } => seq![],
    }
}

/// Whether an event is an answer at all.
pub open spec fn is_answer(event: ImapEventModel) -> bool {
    event is Body || event is BodyFailed || event is Exported || event is ExportFailed
}

/// Whether an event answers what was asked: a message by its own UID and
/// request, an export by its path or by why it failed.
pub open spec fn answers(ask: Ask, event: ImapEventModel) -> bool {
    match (ask, event) {
        (Ask::Body { uid, req_id }, ImapEventModel::Body { uid: u, req_id: r, .. }) => u == uid && r
            == req_id,
        (Ask::Body { uid, req_id }, ImapEventModel::BodyFailed { uid: u, req_id: r, .. }) => u == uid
            && r == req_id,
        (Ask::Export { path }, ImapEventModel::Exported { path: p }) => p == path,
        (Ask::Export { path }, ImapEventModel::ExportFailed { .. }) => true,
        _ => false,
    }
}

/// The answers among some actions.
pub open spec fn told_in(actions: Seq<WorkerActionModel>) -> Seq<ImapEventModel>
    decreases actions.len(),
{
    if actions.len() == 0 {
        seq![]
    } else {
        let before = told_in(actions.drop_last());
        match actions.last() {
            WorkerActionModel::Emit(event) => if is_answer(event) {
                before.push(event)
            } else {
                before
            },
            _ => before,
        }
    }
}

impl WorkerModel {
    /// The connection after a run of inputs, and all that was to be done.
    pub open spec fn after(self, inputs: Seq<WorkerInputModel>) -> (
        WorkerModel,
        Seq<WorkerActionModel>,
    )
        decreases inputs.len(),
    {
        if inputs.len() == 0 {
            (self, seq![])
        } else {
            let (w, actions) = self.after(inputs.drop_last());
            let (next, more) = w.step(inputs.last());
            (next, actions + more)
        }
    }

    /// What an input asks: a command that is taken on does.
    pub open spec fn asked_by(self, input: WorkerInputModel) -> Seq<Ask> {
        match (self.phase, input) {
            (WorkerPhaseModel::Idle, WorkerInputModel::Command(job)) => asked(job),
            _ => seq![],
        }
    }

    /// What the commands of a run ask, in their order.
    pub open spec fn asked_in(self, inputs: Seq<WorkerInputModel>) -> Seq<Ask>
        decreases inputs.len(),
    {
        if inputs.len() == 0 {
            seq![]
        } else {
            let few = inputs.drop_last();
            self.asked_in(few) + self.after(few).0.asked_by(inputs.last())
        }
    }

    /// What was asked and is not answered yet.
    pub open spec fn owed(self) -> Seq<Ask> {
        match self.phase {
            WorkerPhaseModel::Idle => seq![],
            WorkerPhaseModel::Connecting { job, attempt, delay } => asked(job),
            WorkerPhaseModel::Backoff { job, attempt, delay } => asked(job),
            WorkerPhaseModel::Body { uid, req_id } => seq![Ask::Body { uid, req_id }],
            WorkerPhaseModel::Export { path } => seq![Ask::Export { path }],
            WorkerPhaseModel::Writing { path } => seq![Ask::Export { path }],
            WorkerPhaseModel::Bulk => seq![],
        }
    }

    /// A command runs only on an open connection, and one is opened only where
    /// there is none.
    pub open spec fn sound(self) -> bool {
        match self.phase {
            WorkerPhaseModel::Idle => true,
            WorkerPhaseModel::Connecting { .. } => !self.connected,
            WorkerPhaseModel::Backoff { .. } => !self.connected,
            _ => self.connected,
        }
    }
}

proof fn lemma_told_in(a: Seq<WorkerActionModel>, b: Seq<WorkerActionModel>)
    ensures
        told_in(a + b) == told_in(a) + told_in(b),
    decreases b.len(),
{
    if b.len() == 0 {
        assert(a + b =~= a);
        assert(told_in(a) + told_in(b) =~= told_in(a));
    } else {
        lemma_told_in(a, b.drop_last());
        assert((a + b).drop_last() =~= a + b.drop_last());
        assert((a + b).last() == b.last());
        assert(told_in(a + b) =~= told_in(a) + told_in(b));
    }
}

proof fn lemma_told_in_one(event: ImapEventModel)
    ensures
        told_in(seq![WorkerActionModel::Emit(event)]) == (if is_answer(event) {
            seq![event]
        } else {
            seq![]
        }),
        told_in(seq![WorkerActionModel::DropSession, WorkerActionModel::Emit(event)]) == (
        if is_answer(event) {
            seq![event]
        } else {
            seq![]
        }),
{
    let one = seq![WorkerActionModel::Emit(event)];
    let two = seq![WorkerActionModel::DropSession, WorkerActionModel::Emit(event)];
    let none: Seq<ImapEventModel> = seq![];
    assert(one.drop_last() =~= seq![]);
    assert(two.drop_last() =~= seq![WorkerActionModel::DropSession]);
    assert(two.drop_last().drop_last() =~= seq![]);
    assert(told_in(seq![]) =~= none);
    assert(told_in(two.drop_last()) =~= none);
    assert(none.push(event) =~= seq![event]);
}

/// One step answers what is owed or keeps owing it.
proof fn lemma_step_answers(w: WorkerModel, input: WorkerInputModel)
    ensures
        ({
            let (next, more) = w.step(input);
            let told = told_in(more);
            ||| told.len() == 0 && next.owed() == w.owed() + w.asked_by(input)
            ||| {
                &&& told.len() == 1 && w.owed().len() == 1 && w.asked_by(input).len() == 0
                &&& next.owed().len() == 0
                &&& answers(w.owed()[0], told[0])
            }
        }),
{
    let (next, more) = w.step(input);
    let nothing: Seq<WorkerActionModel> = seq![];
    assert(told_in(nothing).len() == 0);
    if more.len() == 1 {
        assert(more.drop_last() =~= nothing);
    }
    match (w.phase, input) {
        (
            WorkerPhaseModel::Connecting { job, attempt, delay },
            WorkerInputModel::ConnectFailed { error, permanent },
        ) => {
            if permanent || attempt >= actor::MAX_RECONNECT_ATTEMPTS {
                lemma_told_in_one(unreachable_event(job, error));
            }
        },
        (
            WorkerPhaseModel::Body { uid, req_id },
            WorkerInputModel::BodyFetched { html, attachments },
        ) => {
            lemma_told_in_one(ImapEventModel::Body { uid, html, attachments, req_id });
        },
        (WorkerPhaseModel::Body { uid, req_id }, WorkerInputModel::Failed(error)) => {
            lemma_told_in_one(ImapEventModel::BodyFailed { uid, req_id, error });
        },
        (WorkerPhaseModel::Export { path }, WorkerInputModel::Failed(error)) => {
            lemma_told_in_one(ImapEventModel::ExportFailed { error });
        },
        (WorkerPhaseModel::Writing { path }, WorkerInputModel::Written) => {
            lemma_told_in_one(ImapEventModel::Exported { path });
        },
        (WorkerPhaseModel::Writing { path }, WorkerInputModel::WriteFailed(error)) => {
            lemma_told_in_one(
                ImapEventModel::ExportFailed { error: "could not write "@ + path + ": "@ + error },
            );
        },
        (WorkerPhaseModel::Bulk, WorkerInputModel::Failed(error)) => {
            lemma_told_in_one(ImapEventModel::Error(error));
        },
        _ => {},
    }
    assert(told_in(more).len() == 0 ==> next.owed() =~= w.owed() + w.asked_by(input));
}

/// Over any run of inputs, each request is answered once, in the order of the
/// commands and with what it asked for: the answers so far are those to the
/// first requests, and what is left is what the connection still works on, which
/// is nothing once it waits for commands again.
pub proof fn law_each_request_is_answered_once_in_order(inputs: Seq<WorkerInputModel>)
    ensures
        ({
            let (w, actions) = WorkerModel::fresh().after(inputs);
            let asks = WorkerModel::fresh().asked_in(inputs);
            let told = told_in(actions);
            &&& told.len() + w.owed().len() == asks.len()
            &&& forall|i: int| 0 <= i < told.len() ==> answers(asks[i], #[trigger] told[i])
            &&& w.owed() == asks.skip(told.len() as int)
            &&& w.phase is Idle ==> told.len() == asks.len()
        }),
    decreases inputs.len(),
{
    let fresh = WorkerModel::fresh();
    let (w, actions) = fresh.after(inputs);
    let asks = fresh.asked_in(inputs);
    let told = told_in(actions);
    if inputs.len() == 0 {
        assert(w.owed() =~= asks.skip(0));
    } else {
        let few = inputs.drop_last();
        let input = inputs.last();
        law_each_request_is_answered_once_in_order(few);
        let (v, before) = fresh.after(few);
        let asks_before = fresh.asked_in(few);
        let told_before = told_in(before);
        let more = v.step(input).1;
        lemma_step_answers(v, input);
        lemma_told_in(before, more);
        assert(told == told_before + told_in(more));
        assert(asks == asks_before + v.asked_by(input));
        if told_in(more).len() == 0 {
            assert(told =~= told_before);
            assert(asks.skip(told.len() as int) =~= asks_before.skip(told.len() as int) + v.asked_by(
                input,
            ));
        } else {
            assert(asks =~= asks_before);
            assert(asks[told_before.len() as int] == v.owed()[0]);
            assert(asks.skip(told.len() as int) =~= w.owed());
        }
        assert forall|i: int| 0 <= i < told.len() implies answers(asks[i], #[trigger] told[i]) by {
            if i < told_before.len() {
                assert(told[i] == told_before[i]);
                assert(asks[i] == asks_before[i]);
            }
        }
    }
}

/// A command that comes while the connection waits for one is a request like any
/// other; if every command of a run comes so, the run asks what its commands ask.
pub proof fn law_no_request_is_lost(inputs: Seq<WorkerInputModel>)
    requires
        forall|i: int|
            0 <= i < inputs.len() && (#[trigger] inputs[i]) is Command ==> WorkerModel::fresh().after(
                inputs.take(i),
            ).0.phase is Idle,
    ensures
        WorkerModel::fresh().asked_in(inputs) == asked_by_all(inputs),
    decreases inputs.len(),
{
    if inputs.len() > 0 {
        let few = inputs.drop_last();
        assert forall|i: int| 0 <= i < few.len() && (#[trigger] few[i]) is Command implies WorkerModel::fresh().after(
            few.take(i),
        ).0.phase is Idle by {
            assert(inputs[i] is Command);
            assert(few.take(i) =~= inputs.take(i));
        }
        law_no_request_is_lost(few);
        assert(inputs.take(inputs.len() - 1) =~= few);
        assert(inputs[inputs.len() - 1] == inputs.last());
        assert(asked_by_all(few) + Seq::<Ask>::empty() =~= asked_by_all(few));
    }
}

/// What all commands among some inputs ask, in their order.
pub open spec fn asked_by_all(inputs: Seq<WorkerInputModel>) -> Seq<Ask>
    decreases inputs.len(),
{
    if inputs.len() == 0 {
        seq![]
    } else {
        let before = asked_by_all(inputs.drop_last());
        match inputs.last() {
            WorkerInputModel::Command(job) => before + asked(job),
            _ => before,
        }
    }
}

/// Over any run of inputs the download connection never tells the program that
/// the account connected or disconnected: its reconnects are silent.
pub proof fn law_worker_reconnects_silently(inputs: Seq<WorkerInputModel>, i: int)
    requires
        0 <= i < WorkerModel::fresh().after(inputs).1.len(),
    ensures
        WorkerModel::fresh().after(inputs).1[i] matches WorkerActionModel::Emit(event) ==> !(
        event is Connected) && !(event is Disconnected),
    decreases inputs.len(),
{
    if inputs.len() > 0 {
        let (w, before) = WorkerModel::fresh().after(inputs.drop_last());
        let more = w.step(inputs.last()).1;
        if i < before.len() {
            law_worker_reconnects_silently(inputs.drop_last(), i);
        } else {
            assert((before + more)[i] == more[i - before.len()]);
        }
    }
}

/// Over any run of inputs a command runs only on an open connection.
pub proof fn law_commands_run_on_an_open_connection(inputs: Seq<WorkerInputModel>)
    ensures
        WorkerModel::fresh().after(inputs).0.sound(),
        WorkerModel::fresh().after(inputs).0.wf(),
    decreases inputs.len(),
{
    if inputs.len() > 0 {
        law_commands_run_on_an_open_connection(inputs.drop_last());
    }
}

/// After a fetch that failed, the next command opens a new connection.
pub proof fn law_a_failed_fetch_is_followed_by_a_reconnect(
    inputs: Seq<WorkerInputModel>,
    error: Text,
    job: WorkerCommandModel,
)
    requires
        ({
            let phase = WorkerModel::fresh().after(inputs).0.phase;
            phase is Body || phase is Export || phase is Bulk
        }),
    ensures
        ({
            let w = WorkerModel::fresh().after(inputs).0.step(WorkerInputModel::Failed(error)).0;
            &&& !w.connected
            &&& w.phase is Idle
            &&& w.step(WorkerInputModel::Command(job)).1 == seq![WorkerActionModel::Connect]
        }),
{
}

/// A file that cannot be written says nothing about the connection: it stays
/// open, and the next command runs on it at once.
pub proof fn law_a_local_error_keeps_the_session(
    inputs: Seq<WorkerInputModel>,
    error: Text,
    job: WorkerCommandModel,
)
    requires
        WorkerModel::fresh().after(inputs).0.phase is Writing,
    ensures
        ({
            let w = WorkerModel::fresh().after(inputs).0.step(
                WorkerInputModel::WriteFailed(error),
            ).0;
            &&& w.connected
            &&& w.phase is Idle
            &&& w.step(WorkerInputModel::Command(job)) == w.running(job)
        }),
{
    law_commands_run_on_an_open_connection(inputs);
}

/// A message that was asked for is answered with its own UID and request: by
/// its body, or by the reason it could not be had.
pub proof fn law_body_requests_are_answered(
    w: WorkerModel,
    uid: u32,
    req_id: u64,
    html: Text,
    attachments: Seq<AttachmentModel>,
    error: Text,
)
    requires
        w.phase == (WorkerPhaseModel::Body { uid, req_id }),
    ensures
        w.step(WorkerInputModel::BodyFetched { html, attachments }).1 == seq![
            WorkerActionModel::Emit(ImapEventModel::Body { uid, html, attachments, req_id }),
        ],
        w.step(WorkerInputModel::Failed(error)).1 == seq![
            WorkerActionModel::DropSession,
            WorkerActionModel::Emit(ImapEventModel::BodyFailed { uid, req_id, error }),
        ],
{
}

// ── Downloading a mailbox ───────────────────────────────────────────────────

/// The query for every message of a mailbox that holds `total`.
pub open spec fn whole_mailbox(total: u32) -> Text {
    "1:"@ + text::decimal(total as nat)
}

/// How far a download has come.
pub open spec fn progress_event(current: u32, total: u32) -> ImapEventModel {
    ImapEventModel::DownloadProgress { current, total }
}

/// A message that was downloaded; one without a body has an empty one.
pub open spec fn downloaded(
    mailbox: Text,
    header: MailHeaderModel,
    html: Option<Text>,
    attachments: Seq<AttachmentModel>,
) -> ImapEventModel {
    ImapEventModel::MailData {
        mailbox,
        header,
        body: match html {
            Some(h) => h,
            None => seq![],
        },
        attachments,
    }
}

/// The download of a whole mailbox: what is left of its listing, and the
/// message whose body is being fetched.
pub struct BulkDownload {
    pub mailbox: String,
    pub total: u32,
    pub left: Vec<Result<FetchedMessage, String>>,
    pub done: usize,
    pub current: Option<MailHeader>,
}

/// Begins a download of a mailbox with `total` messages. An empty one has
/// nothing to download; else the progress so far is told and the listing of
/// every message is to be fetched.
pub fn begin_download(mailbox: &str, total: u32) -> (r: Option<(BulkDownload, ImapEvent, String)>)
    ensures
        match r {
            None => total == 0,
            Some((d, event, query)) => {
                &&& total > 0
                &&& d.mailbox@ == mailbox@ && d.total == total && d.done == 0 && d.left@.len() == 0
                    && d.current is None
                &&& event@ == progress_event(0, total)
                &&& query@ == whole_mailbox(total)
            },
        },
{
    if total == 0 {
        return None;
    }
    let mut query = "1:".to_owned();
    query.append(text::to_decimal(total as u64).as_str());
    Some(
        (
            BulkDownload {
                mailbox: mailbox.to_owned(),
                total,
                left: Vec::new(),
                done: 0,
                current: None,
            },
            ImapEvent::DownloadProgress { current: 0, total },
            query,
        ),
    )
}

impl BulkDownload {
    /// Takes the next message off the listing. `Ok(None)` when there is none
    /// left, else the UID whose body is to be fetched.
    pub fn next(&mut self) -> (r: Result<Option<u32>, FetchError>)
        ensures
            final(self).mailbox == old(self).mailbox,
            final(self).total == old(self).total,
            final(self).done == old(self).done,
            old(self).left@.len() == 0 ==> r == Ok::<Option<u32>, FetchError>(None)
                && final(self).left@ == old(self).left@ && final(self).current == old(self).current,
            old(self).left@.len() > 0 ==> final(self).left@ == old(self).left@.drop_first() && match (
                imap::header_of(old(self).left@[0]),
                r,
            ) {
                (Ok(h), Ok(Some(uid))) => uid == h.uid && (final(self).current matches Some(c) && c@ == h),
                (Err(e), Err(x)) => e == x && final(self).current == old(self).current,
                _ => false,
            },
    {
        if self.left.len() == 0 {
            return Ok(None);
        }
        let msg = self.left.remove(0);
        assert(self.left@ =~= old(self).left@.drop_first());
        match imap::read_fetched(msg) {
            Ok(header) => {
                let uid: u32 = header.uid;
                self.current = Some(header);
                Ok(Some(uid))
            },
            Err(e) => Err(e),
        }
    }

    /// The body of the current message has come: the message is handed over
    /// and the progress told. A message without a body is handed over with an
    /// empty one.
    pub fn body(&mut self, html: Option<String>, attachments: Vec<Attachment>) -> (r: Option<
        (ImapEvent, ImapEvent),
    >)
        requires
            old(self).done < usize::MAX,
        ensures
            final(self).mailbox == old(self).mailbox,
            final(self).total == old(self).total,
            final(self).left == old(self).left,
            final(self).current is None,
            match (old(self).current, r) {
                (None, None) => final(self).done == old(self).done,
                (Some(header), Some((data, progress))) => {
                    &&& final(self).done == old(self).done + 1
                    &&& data@ == downloaded(
                        old(self).mailbox@,
                        header@,
                        html.deep_view(),
                        attachments.deep_view(),
                    )
                    &&& progress@ == progress_event((old(self).done + 1) as u32, old(self).total)
                },
                _ => false,
            },
    {
        match self.current.take() {
            None => None,
            Some(header) => {
                self.done = self.done + 1;
                let body = match html {
                    Some(h) => h,
                    None => {
                        let empty = String::new();
                        assert(empty@ =~= seq![]);
                        empty
                    },
                };
                Some(
                    (
                        ImapEvent::MailData {
                            mailbox: self.mailbox.clone(),
                            header,
                            body,
                            attachments,
                        },
                        ImapEvent::DownloadProgress { current: self.done as u32, total: self.total },
                    ),
                )
            },
        }
    }
}

// ── Moving a message ────────────────────────────────────────────────────────

/// Where the move of one message stands.
#[derive(Debug, Clone, Copy, PartialEq, Eq, Structural)]
pub enum MoveStep {
    /// Select the mailbox.
    Select,
    /// Try the server's own move.
    Move,
    /// Copy the message to where it goes.
    Copy,
    /// Mark the message deleted.
    MarkDeleted,
    /// Expunge the mailbox.
    Expunge,
    /// The message has moved.
    Done,
    /// It could not be moved; the error is that of the last step.
    Failed,
}

impl MoveStep {
    /// The step that follows when this one succeeded or failed. A server that
    /// cannot move falls back to copy, mark and expunge.
    pub open spec fn following(self, ok: bool) -> MoveStep {
        match self {
            MoveStep::Select => if ok {
                MoveStep::Move
            } else {
                MoveStep::Failed
            },
            MoveStep::Move => if ok {
                MoveStep::Done
            } else {
                MoveStep::Copy
            },
            MoveStep::Copy => if ok {
                MoveStep::MarkDeleted
            } else {
                MoveStep::Failed
            },
            MoveStep::MarkDeleted => if ok {
                MoveStep::Expunge
            } else {
                MoveStep::Failed
            },
            MoveStep::Expunge => if ok {
                MoveStep::Done
            } else {
                MoveStep::Failed
            },
            MoveStep::Done => MoveStep::Done,
            MoveStep::Failed => MoveStep::Failed,
        }
    }

    /// The step that follows when this one succeeded or failed.
    pub fn next(self, ok: bool) -> (r: MoveStep)
        ensures
            r == self.following(ok),
    {
        match self {
            MoveStep::Select => if ok {
                MoveStep::Move
            } else {
                MoveStep::Failed
            },
            MoveStep::Move => if ok {
                MoveStep::Done
            } else {
                MoveStep::Copy
            },
            MoveStep::Copy => if ok {
                MoveStep::MarkDeleted
            } else {
                MoveStep::Failed
            },
            MoveStep::MarkDeleted => if ok {
                MoveStep::Expunge
            } else {
                MoveStep::Failed
            },
            MoveStep::Expunge => if ok {
                MoveStep::Done
            } else {
                MoveStep::Failed
            },
            MoveStep::Done => MoveStep::Done,
            MoveStep::Failed => MoveStep::Failed,
        }
    }
}

/// The original is only marked deleted, and the mailbox only expunged, once a
/// copy of the message exists where it goes: a message is never lost.
pub proof fn law_nothing_is_deleted_before_it_is_copied(select: bool, moved: bool, copied: bool)
    ensures
        MoveStep::Select.following(select).following(moved).following(copied) == MoveStep::MarkDeleted
            ==> select && !moved && copied,
        select && moved ==> MoveStep::Select.following(select).following(moved) == MoveStep::Done,
        select && !moved && copied ==> MoveStep::Select.following(select).following(
            moved,
        ).following(copied) == MoveStep::MarkDeleted,
        select && !moved && !copied ==> MoveStep::Select.following(select).following(
            moved,
        ).following(copied) == MoveStep::Failed,
{
}

// ── Counting unread messages ────────────────────────────────────────────────

/// The counts of the mailboxes that answered. A mailbox that failed is left
/// out; one whose answer holds no number counts as zero.
pub open spec fn counted(answers: Seq<(Text, Option<Option<u32>>)>) -> Map<Text, u32>
    decreases answers.len(),
{
    if answers.len() == 0 {
        Map::empty()
    } else {
        let before = counted(answers.drop_last());
        match answers.last().1 {
            Some(unseen) => before.insert(
                answers.last().0,
                match unseen {
                    Some(n) => n,
                    None => 0,
                },
            ),
            None => before,
        }
    }
}

/// The counts of the mailboxes that answered.
pub fn unread_counts(answers: &Vec<(String, Option<Option<u32>>)>) -> (r: crate::events::UnreadCounts)
    ensures
        r@ == counted(Seq::new(answers@.len(), |i: int| (answers@[i].0@, answers@[i].1))),
{
    let ghost all = Seq::new(answers@.len(), |i: int| (answers@[i].0@, answers@[i].1));
    let mut r = crate::events::UnreadCounts::new();
    let mut i: usize = 0;
    while i < answers.len()
        invariant
            i <= answers@.len(),
            all == Seq::new(answers@.len(), |i: int| (answers@[i].0@, answers@[i].1)),
            r@ == counted(all.take(i as int)),
        decreases answers@.len() - i,
    {
        assert(all.take(i + 1).drop_last() =~= all.take(i as int));
        if let Some(unseen) = answers[i].1 {
            r.set(answers[i].0.as_str(), unseen.unwrap_or(0));
        }
        i += 1;
    }
    assert(all.take(all.len() as int) =~= all);
    r
}

} // verus!
