//! What an account's two connections do with a command from end to end: what is
//! asked of the server is what was commanded, and what is told is what the server
//! answered.

use vstd::prelude::*;
use vstd::string::*;
use crate::actor;
use crate::actor::{ActorActionModel, ActorInputModel, ActorModel, PhaseModel, ReplyModel};
use crate::events::{CredentialsModel, ImapCommandModel, ImapEventModel, WorkerCommandModel};
use crate::idle_watch;
use crate::imap::{AttachmentModel, MailHeaderModel, MailboxInfoModel, MailboxState};
use crate::text;
use crate::text::Text;
use crate::worker;
use crate::worker::{MoveStep, WorkerActionModel, WorkerInputModel, WorkerModel, WorkerPhaseModel};

verus! {

broadcast use vstd::string::group_string_axioms;

// ── The account's session ───────────────────────────────────────────────────

/// Whether a command needs the account's session.
pub open spec fn on_session(cmd: ImapCommandModel) -> bool {
    match cmd {
        ImapCommandModel::Connect(_) | ImapCommandModel::FetchBody { .. }
        | ImapCommandModel::BulkDownload { .. } | ImapCommandModel::ExportMessage { .. } => false,
        _ => true,
    }
}

/// What is told of a command when the server's reply arrives.
pub open spec fn told(a: ActorModel, cmd: ImapCommandModel, reply: ReplyModel) -> Seq<ActorActionModel> {
    a.step(ActorInputModel::Command(cmd)).0.step(ActorInputModel::Done(reply)).1
}

/// What is told of a command that failed on the session.
pub open spec fn told_failed(a: ActorModel, cmd: ImapCommandModel, error: Text) -> Seq<ActorActionModel> {
    a.step(ActorInputModel::Command(cmd)).0.step(ActorInputModel::Failed(error)).1
}

/// On an open session a command is performed as it was given, and nothing else is.
pub proof fn law_a_command_is_performed_as_given(a: ActorModel, cmd: ImapCommandModel)
    requires
        a.phase is Idle,
        a.connected,
        on_session(cmd),
    ensures
        a.step(ActorInputModel::Command(cmd)).1 == seq![ActorActionModel::Perform(cmd)],
        a.step(ActorInputModel::Command(cmd)).0.credentials == a.credentials,
        a.step(ActorInputModel::Command(cmd)).0.connected,
        a.step(ActorInputModel::Command(cmd)).0.has_worker == a.has_worker,
{
}

/// What the server answers is told whole, under the names of what was asked.
pub proof fn law_answers_are_told_whole(
    a: ActorModel,
    mailbox: Text,
    uid: u32,
    dest: Text,
    page: u32,
    req_id: u64,
    first_uid: u32,
    names: Seq<Text>,
    raw: Seq<u8>,
    headers: Seq<MailHeaderModel>,
    total_pages: u32,
    state: MailboxState,
    flags: Seq<Text>,
    add: Seq<Text>,
    remove: Seq<Text>,
    list: Seq<MailboxInfoModel>,
    counts: Map<Text, u32>,
)
    requires
        a.phase is Idle,
        a.connected,
    ensures
        told(a, ImapCommandModel::FetchMailboxes, ReplyModel::Mailboxes(list)) == seq![
            ActorActionModel::Emit(ImapEventModel::Mailboxes(list)),
        ],
        told(
            a,
            ImapCommandModel::FetchHeaders { mailbox, page, req_id },
            ReplyModel::Headers { headers, total_pages, state },
        ) == seq![
            ActorActionModel::Emit(
                ImapEventModel::Headers {
                    mailbox,
                    headers,
                    page,
                    total_pages,
                    req_id,
                    mailbox_state: state,
                },
            ),
        ],
        told(a, ImapCommandModel::PollMailbox { mailbox }, ReplyModel::Polled(state)) == seq![
            ActorActionModel::Emit(ImapEventModel::MailboxPolled { mailbox, state }),
        ],
        told(
            a,
            ImapCommandModel::FetchNewHeaders { mailbox, first_uid },
            ReplyModel::Envelopes(headers),
        ) == seq![ActorActionModel::Emit(ImapEventModel::NewHeaders { mailbox, headers })],
        told(
            a,
            ImapCommandModel::FetchHeadersFrom { mailbox, first_uid },
            ReplyModel::Envelopes(headers),
        ) == seq![ActorActionModel::Emit(ImapEventModel::HeadersFrom { mailbox, headers })],
        told(a, ImapCommandModel::Append { mailbox, raw }, ReplyModel::Appended) == seq![
            ActorActionModel::Emit(ImapEventModel::Appended { mailbox }),
        ],
        told(
            a,
            ImapCommandModel::StoreFlags { mailbox, uid, add, remove, req_id },
            ReplyModel::Flags(flags),
        ) == seq![ActorActionModel::Emit(ImapEventModel::FlagsUpdated { mailbox, uid, flags, req_id })],
        told(a, ImapCommandModel::MoveMessage { mailbox, uid, dest, req_id }, ReplyModel::Moved) == seq![
            ActorActionModel::Emit(ImapEventModel::Moved { mailbox, uid, dest, req_id }),
        ],
        told(
            a,
            ImapCommandModel::FetchUnreadCounts { mailboxes: names },
            ReplyModel::Unread(counts),
        ) == seq![ActorActionModel::Emit(ImapEventModel::UnreadCounts(counts))],
{
}

/// A command that fails on the session drops it and is told with its reason, under
/// the names of what was asked; counting unread messages fails silently.
pub proof fn law_failures_are_told_with_their_reason(
    a: ActorModel,
    mailbox: Text,
    uid: u32,
    dest: Text,
    page: u32,
    req_id: u64,
    first_uid: u32,
    names: Seq<Text>,
    raw: Seq<u8>,
    add: Seq<Text>,
    remove: Seq<Text>,
    error: Text,
)
    requires
        a.phase is Idle,
        a.connected,
    ensures
        ({
            let lost = |event: ImapEventModel|
                seq![ActorActionModel::DropSession, ActorActionModel::Emit(event)];
            &&& told_failed(a, ImapCommandModel::FetchMailboxes, error) == lost(
                ImapEventModel::Error(error),
            )
            &&& told_failed(a, ImapCommandModel::FetchHeaders { mailbox, page, req_id }, error) == lost(
                ImapEventModel::Error(error),
            )
            &&& told_failed(a, ImapCommandModel::FetchHeadersFrom { mailbox, first_uid }, error) == lost(
                ImapEventModel::Error(error),
            )
            &&& told_failed(a, ImapCommandModel::PollMailbox { mailbox }, error) == lost(
                ImapEventModel::PollFailed(error),
            )
            &&& told_failed(a, ImapCommandModel::FetchNewHeaders { mailbox, first_uid }, error) == lost(
                ImapEventModel::PollFailed(error),
            )
            &&& told_failed(a, ImapCommandModel::Append { mailbox, raw }, error) == lost(
                ImapEventModel::AppendFailed { mailbox, error },
            )
            &&& told_failed(
                a,
                ImapCommandModel::StoreFlags { mailbox, uid, add, remove, req_id },
                error,
            ) == lost(ImapEventModel::FlagsUpdateFailed { mailbox, uid, error, req_id })
            &&& told_failed(a, ImapCommandModel::MoveMessage { mailbox, uid, dest, req_id }, error)
                == lost(ImapEventModel::MoveFailed { mailbox, uid, error, req_id })
            &&& told_failed(a, ImapCommandModel::FetchUnreadCounts { mailboxes: names }, error) == seq![
                ActorActionModel::DropSession,
            ]
        }),
{
    let lost = |event: ImapEventModel|
        seq![ActorActionModel::DropSession, ActorActionModel::Emit(event)];
    assert(told_failed(a, ImapCommandModel::FetchMailboxes, error) =~= lost(
        ImapEventModel::Error(error),
    ));
    assert(told_failed(a, ImapCommandModel::FetchHeaders { mailbox, page, req_id }, error) =~= lost(
        ImapEventModel::Error(error),
    ));
    assert(told_failed(a, ImapCommandModel::FetchHeadersFrom { mailbox, first_uid }, error) =~= lost(
        ImapEventModel::Error(error),
    ));
    assert(told_failed(a, ImapCommandModel::PollMailbox { mailbox }, error) =~= lost(
        ImapEventModel::PollFailed(error),
    ));
    assert(told_failed(a, ImapCommandModel::FetchNewHeaders { mailbox, first_uid }, error) =~= lost(
        ImapEventModel::PollFailed(error),
    ));
    assert(told_failed(a, ImapCommandModel::Append { mailbox, raw }, error) =~= lost(
        ImapEventModel::AppendFailed { mailbox, error },
    ));
    assert(told_failed(
        a,
        ImapCommandModel::StoreFlags { mailbox, uid, add, remove, req_id },
        error,
    ) =~= lost(ImapEventModel::FlagsUpdateFailed { mailbox, uid, error, req_id }));
    assert(told_failed(a, ImapCommandModel::MoveMessage { mailbox, uid, dest, req_id }, error) =~= lost(
        ImapEventModel::MoveFailed { mailbox, uid, error, req_id },
    ));
    assert(told_failed(a, ImapCommandModel::FetchUnreadCounts { mailboxes: names }, error) =~= seq![
        ActorActionModel::DropSession,
    ]);
}

/// Signing in uses the credentials given, and once it worked they are kept and the
/// download connection gets them too. A refusal is told, and leaves the account as
/// it was.
pub proof fn law_signing_in_uses_the_credentials_given(
    a: ActorModel,
    c: CredentialsModel,
    error: Text,
    permanent: bool,
)
    requires
        a.phase is Idle,
    ensures
        ({
            let (b, first) = a.step(ActorInputModel::Command(ImapCommandModel::Connect(c)));
            let (done, then) = b.step(ActorInputModel::Connected);
            let (refused, said) = b.step(ActorInputModel::ConnectFailed { error, permanent });
            &&& first == seq![ActorActionModel::Connect(c)]
            &&& then == seq![
                ActorActionModel::StartWorker(c),
                ActorActionModel::Emit(ImapEventModel::Connected),
            ]
            &&& done.connected && done.has_worker && done.credentials == Some(c) && done.phase is Idle
            &&& said == seq![ActorActionModel::Emit(ImapEventModel::Error(error))]
            &&& refused == a
        }),
{
}

/// A command that finds no session opens one with the account's credentials, says
/// so, and is then performed as it was given. A background look is left out
/// instead, and without credentials the command fails.
pub proof fn law_a_lost_session_is_opened_again(a: ActorModel, cmd: ImapCommandModel, c: CredentialsModel)
    requires
        a.phase is Idle,
        !a.connected,
        on_session(cmd),
        !(cmd is PollMailbox),
        !(cmd is FetchNewHeaders),
        a.credentials == Some(c),
    ensures
        ({
            let (b, first) = a.step(ActorInputModel::Command(cmd));
            let (done, then) = b.step(ActorInputModel::Connected);
            &&& first == seq![
                ActorActionModel::Emit(ImapEventModel::Disconnected),
                ActorActionModel::Connect(c),
            ]
            &&& then == seq![
                ActorActionModel::Emit(ImapEventModel::Connected),
                ActorActionModel::Perform(cmd),
            ]
            &&& done.connected && done.credentials == Some(c) && done.has_worker == a.has_worker
            &&& forall|reply: ReplyModel|
                #[trigger] done.step(ActorInputModel::Done(reply)).1 == told(
                    ActorModel { connected: true, ..a },
                    cmd,
                    reply,
                )
        }),
{
}

/// Attempts to open a session wait in between, first one second and then twice as
/// long each time, up to sixteen seconds, and end with the fifth or with a refusal
/// that will not change.
pub proof fn law_attempts_wait_longer_each_time(
    a: ActorModel,
    job: ImapCommandModel,
    attempt: u32,
    delay: u64,
    c: CredentialsModel,
    error: Text,
    permanent: bool,
)
    requires
        a.wf(),
        a.credentials == Some(c),
        a.phase == (PhaseModel::Reconnecting { job, attempt, delay }),
    ensures
        ({
            let (b, first) = a.step(ActorInputModel::ConnectFailed { error, permanent });
            let (again, then) = b.step(ActorInputModel::Slept);
            if permanent || attempt >= 5 {
                b.phase is Idle
            } else {
                &&& first == seq![ActorActionModel::Sleep(delay)]
                &&& then == seq![ActorActionModel::Connect(c)]
                &&& again.phase == (PhaseModel::Reconnecting {
                    job,
                    attempt: (attempt + 1) as u32,
                    delay: if 2 * delay > 16 {
                        16
                    } else {
                        (2 * delay) as u64
                    },
                })
                &&& again.credentials == Some(c)
            }
        }),
{
}

/// Bodies, downloads and exports go to the download connection as they were asked
/// for; without one they fail under the names of what was asked.
pub proof fn law_downloads_go_to_the_other_connection(
    a: ActorModel,
    mailbox: Text,
    uid: u32,
    req_id: u64,
    path: Text,
)
    requires
        a.phase is Idle,
    ensures
        ({
            let body = a.step(
                ActorInputModel::Command(ImapCommandModel::FetchBody { mailbox, uid, req_id }),
            );
            let bulk = a.step(ActorInputModel::Command(ImapCommandModel::BulkDownload { mailbox }));
            let export = a.step(
                ActorInputModel::Command(ImapCommandModel::ExportMessage { mailbox, uid, path }),
            );
            &&& body.0 == a && bulk.0 == a && export.0 == a
            &&& a.has_worker ==> body.1 == seq![
                ActorActionModel::ToWorker(WorkerCommandModel::FetchBody { mailbox, uid, req_id }),
            ] && bulk.1 == seq![
                ActorActionModel::ToWorker(WorkerCommandModel::BulkDownload { mailbox }),
            ] && export.1 == seq![
                ActorActionModel::ToWorker(WorkerCommandModel::ExportMessage { mailbox, uid, path }),
            ]
            &&& !a.has_worker ==> body.1 == seq![
                ActorActionModel::Emit(
                    ImapEventModel::BodyFailed { uid, req_id, error: "not connected"@ },
                ),
            ] && bulk.1 == seq![ActorActionModel::Emit(ImapEventModel::Error("not connected"@))]
                && export.1 == seq![
                ActorActionModel::Emit(ImapEventModel::ExportFailed { error: "not connected"@ }),
            ]
        }),
{
}

// ── The download connection ─────────────────────────────────────────────────

/// A body is fetched from the mailbox and by the UID that were asked for, and what
/// comes back is told whole.
pub proof fn law_a_body_is_fetched_and_told(
    w: WorkerModel,
    mailbox: Text,
    uid: u32,
    req_id: u64,
    html: Text,
    attachments: Seq<AttachmentModel>,
)
    requires
        w.phase is Idle,
        w.connected,
    ensures
        ({
            let (b, first) = w.step(
                WorkerInputModel::Command(WorkerCommandModel::FetchBody { mailbox, uid, req_id }),
            );
            let (done, then) = b.step(WorkerInputModel::BodyFetched { html, attachments });
            &&& first == seq![WorkerActionModel::FetchBody { mailbox, uid }]
            &&& then == seq![
                WorkerActionModel::Emit(ImapEventModel::Body { uid, html, attachments, req_id }),
            ]
            &&& done == w
        }),
{
}

/// A message is exported from the mailbox and by the UID that were asked for: its
/// source goes, byte for byte, into the file that was named, and the file is told.
pub proof fn law_a_message_is_exported_whole(
    w: WorkerModel,
    mailbox: Text,
    uid: u32,
    path: Text,
    data: Seq<u8>,
    error: Text,
)
    requires
        w.phase is Idle,
        w.connected,
    ensures
        ({
            let (b, first) = w.step(
                WorkerInputModel::Command(WorkerCommandModel::ExportMessage { mailbox, uid, path }),
            );
            let (c, then) = b.step(WorkerInputModel::RawFetched(data));
            let (done, last) = c.step(WorkerInputModel::Written);
            let (failed, said) = c.step(WorkerInputModel::WriteFailed(error));
            &&& first == seq![WorkerActionModel::FetchRaw { mailbox, uid }]
            &&& then == seq![WorkerActionModel::WriteFile { path, data }]
            &&& last == seq![WorkerActionModel::Emit(ImapEventModel::Exported { path })]
            &&& said == seq![
                WorkerActionModel::Emit(
                    ImapEventModel::ExportFailed { error: "could not write "@ + path + ": "@ + error },
                ),
            ]
            &&& done == w && failed == w
            &&& b.step(WorkerInputModel::Failed(error)).1 == seq![
                WorkerActionModel::DropSession,
                WorkerActionModel::Emit(ImapEventModel::ExportFailed { error }),
            ]
        }),
{
}

/// A mailbox is downloaded under its own name; a download that breaks off says why.
pub proof fn law_a_mailbox_is_downloaded(w: WorkerModel, mailbox: Text, error: Text)
    requires
        w.phase is Idle,
        w.connected,
    ensures
        ({
            let (b, first) = w.step(
                WorkerInputModel::Command(WorkerCommandModel::BulkDownload { mailbox }),
            );
            &&& first == seq![WorkerActionModel::Download { mailbox }]
            &&& b.step(WorkerInputModel::BulkDone) == (w, Seq::<WorkerActionModel>::empty())
            &&& b.step(WorkerInputModel::Failed(error)).1 == seq![
                WorkerActionModel::DropSession,
                WorkerActionModel::Emit(ImapEventModel::Error(error)),
            ]
        }),
{
}

/// A command that finds the download connection closed opens it and then runs just
/// as on an open one.
pub proof fn law_a_download_opens_its_connection(w: WorkerModel, job: WorkerCommandModel)
    requires
        w.phase is Idle,
        !w.connected,
    ensures
        ({
            let (b, first) = w.step(WorkerInputModel::Command(job));
            let open = WorkerModel { connected: true, ..w };
            &&& first == seq![WorkerActionModel::Connect]
            &&& b.step(WorkerInputModel::Connected) == open.step(WorkerInputModel::Command(job))
        }),
{
}

/// A connection that cannot be opened is tried again after a wait, first of one
/// second and then twice as long each time, up to sixteen; after the fifth attempt,
/// or a refusal that will not change, the command fails with the reason.
pub proof fn law_a_download_gives_up_in_the_end(
    w: WorkerModel,
    job: WorkerCommandModel,
    attempt: u32,
    delay: u64,
    error: Text,
    permanent: bool,
)
    requires
        w.wf(),
        w.phase == (WorkerPhaseModel::Connecting { job, attempt, delay }),
    ensures
        ({
            let (b, first) = w.step(WorkerInputModel::ConnectFailed { error, permanent });
            let (again, then) = b.step(WorkerInputModel::Slept);
            let why = "could not open a connection for this request: "@ + error;
            if permanent || attempt >= 5 {
                &&& b.phase is Idle
                &&& match job {
                    WorkerCommandModel::FetchBody { mailbox, uid, req_id } => first == seq![
                        WorkerActionModel::Emit(ImapEventModel::BodyFailed { uid, req_id, error: why }),
                    ],
                    WorkerCommandModel::BulkDownload { mailbox } => first == seq![
                        WorkerActionModel::Emit(ImapEventModel::Error(why)),
                    ],
                    WorkerCommandModel::ExportMessage { mailbox, uid, path } => first == seq![
                        WorkerActionModel::Emit(ImapEventModel::ExportFailed { error: why }),
                    ],
                }
            } else {
                &&& first == seq![WorkerActionModel::Sleep(delay)]
                &&& then == seq![WorkerActionModel::Connect]
                &&& again.phase == (WorkerPhaseModel::Connecting {
                    job,
                    attempt: (attempt + 1) as u32,
                    delay: if 2 * delay > 16 {
                        16
                    } else {
                        (2 * delay) as u64
                    },
                })
            }
        }),
{
}

/// A downloaded message is told whole: its mailbox, its header, its text and its
/// attachments. Every message of the mailbox is asked for.
pub proof fn law_a_download_tells_each_message_whole(
    mailbox: Text,
    header: MailHeaderModel,
    html: Text,
    attachments: Seq<AttachmentModel>,
    done: u32,
    total: u32,
)
    ensures
        worker::downloaded(mailbox, header, Some(html), attachments) == (ImapEventModel::MailData {
            mailbox,
            header,
            body: html,
            attachments,
        }),
        worker::downloaded(mailbox, header, None, attachments) == (ImapEventModel::MailData {
            mailbox,
            header,
            body: seq![],
            attachments,
        }),
        worker::progress_event(done, total) == (ImapEventModel::DownloadProgress {
            current: done,
            total,
        }),
        worker::whole_mailbox(total) == "1:"@ + text::decimal(total as nat),
{
}

// ── Moving and counting ─────────────────────────────────────────────────────

/// A message has moved if the server moved it, or if it was copied, marked and
/// expunged; it has not if the mailbox could not be opened or one of these failed.
pub proof fn law_a_move_ends_as_its_steps_do(moved: bool, copied: bool, marked: bool, expunged: bool)
    ensures
        ({
            let start = MoveStep::Select;
            let end = start.following(true).following(moved).following(copied).following(
                marked,
            ).following(expunged);
            &&& start.following(false) == MoveStep::Failed
            &&& (moved || (copied && marked && expunged)) ==> end == MoveStep::Done
            &&& !(moved || (copied && marked && expunged)) ==> end == MoveStep::Failed
        }),
        MoveStep::Select.following(true) == MoveStep::Move,
        MoveStep::Move.following(false) == MoveStep::Copy,
        MoveStep::Copy.following(true) == MoveStep::MarkDeleted,
        MoveStep::MarkDeleted.following(true) == MoveStep::Expunge,
{
}

/// Each mailbox that answered has the number it answered last, or zero where it
/// answered without one; a mailbox that never answered has none.
pub proof fn law_each_mailbox_has_its_own_count(answers: Seq<(Text, Option<Option<u32>>)>, i: int)
    requires
        0 <= i < answers.len(),
        forall|k: int| i < k < answers.len() ==> (#[trigger] answers[k]).0 != answers[i].0,
    ensures
        answers[i].1 matches Some(n) ==> worker::counted(answers).dom().contains(answers[i].0)
            && worker::counted(answers)[answers[i].0] == (match n {
            Some(unread) => unread,
            None => 0,
        }),
        answers[i].1 is None && (forall|k: int| 0 <= k < i ==> (#[trigger] answers[k]).0 != answers[i].0)
            ==> !worker::counted(answers).dom().contains(answers[i].0),
    decreases answers.len(),
{
    let few = answers.drop_last();
    if i < answers.len() - 1 {
        assert(answers[answers.len() - 1].0 != answers[i].0);
        assert(few[i] == answers[i]);
        assert forall|k: int| i < k < few.len() implies (#[trigger] few[k]).0 != few[i].0 by {
            assert(few[k] == answers[k]);
        }
        law_each_mailbox_has_its_own_count(few, i);
        if forall|k: int| 0 <= k < i ==> (#[trigger] answers[k]).0 != answers[i].0 {
            assert forall|k: int| 0 <= k < i implies (#[trigger] few[k]).0 != few[i].0 by {
                assert(few[k] == answers[k]);
            }
        }
    } else if answers[i].1 is None && forall|k: int|
        0 <= k < i ==> (#[trigger] answers[k]).0 != answers[i].0 {
        assert forall|k: int| 0 <= k < few.len() implies (#[trigger] few[k]).0 != answers[i].0 by {
            assert(few[k] == answers[k]);
        }
        lemma_not_counted(few, answers[i].0);
    }
}

proof fn lemma_not_counted(answers: Seq<(Text, Option<Option<u32>>)>, name: Text)
    requires
        forall|k: int| 0 <= k < answers.len() ==> (#[trigger] answers[k]).0 != name,
    ensures
        !worker::counted(answers).dom().contains(name),
    decreases answers.len(),
{
    if answers.len() > 0 {
        let few = answers.drop_last();
        assert forall|k: int| 0 <= k < few.len() implies (#[trigger] few[k]).0 != name by {
            assert(few[k] == answers[k]);
        }
        lemma_not_counted(few, name);
        assert(answers[answers.len() - 1].0 != name);
    }
}

// ── Watching for new mail ───────────────────────────────────────────────────

/// A watch that lasted a minute is followed by a wait of one second; one that did
/// not, by the wait that is due, and that is then twice as long, up to sixteen
/// seconds.
pub proof fn law_a_watch_waits_longer_each_time(delay: nat, lasted: nat)
    ensures
        lasted >= 60 ==> idle_watch::wait_after(delay, lasted) == 1,
        lasted < 60 ==> idle_watch::wait_after(delay, lasted) == delay,
        2 * delay <= 16 ==> idle_watch::next_wait(delay) == 2 * delay,
        2 * delay > 16 ==> idle_watch::next_wait(delay) == 16,
        actor::delay_after(1) == 1,
{
}

} // verus!
