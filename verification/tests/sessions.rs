use esmail::actor::{ActorAction, ActorInput, ImapActor, Reply};
use esmail::auth::Auth;
use esmail::events::{Credentials, ImapCommand, ImapEvent, WorkerCommand};
use esmail::idle_watch::{wake_for, Backoff, IdleResponse, MailboxChanged};
use esmail::imap::{FetchedMessage, MailboxState};
use esmail::worker::{begin_download, unread_counts, BodyWorker, MoveStep, WorkerAction, WorkerInput};

fn credentials() -> Credentials {
    Credentials {
        host: "imap.x.org".to_string(),
        port: 993,
        username: "me".to_string(),
        auth: Auth::password("pw".to_string()),
    }
}

fn connected() -> ImapActor {
    let mut actor = ImapActor::new();
    actor.step(ActorInput::Command(ImapCommand::Connect(credentials())));
    actor.step(ActorInput::Connected);
    actor
}

fn fetch_headers() -> ImapCommand {
    ImapCommand::FetchHeaders { mailbox: "INBOX".to_string(), page: 2, req_id: 7 }
}

#[test]
fn connecting_signs_in_and_starts_the_download_connection() {
    let mut actor = ImapActor::new();
    let actions = actor.step(ActorInput::Command(ImapCommand::Connect(credentials())));
    assert!(matches!(&actions[..], [ActorAction::Connect(c)] if c.username == "me"));
    let actions = actor.step(ActorInput::Connected);
    assert!(actions.iter().any(|a| matches!(a, ActorAction::StartWorker(_))));
    assert!(actions.iter().any(|a| matches!(a, ActorAction::Emit(ImapEvent::Connected))));
}

#[test]
fn a_failed_sign_in_is_told() {
    let mut actor = ImapActor::new();
    actor.step(ActorInput::Command(ImapCommand::Connect(credentials())));
    let actions = actor.step(ActorInput::ConnectFailed { error: "bad".to_string(), permanent: true });
    assert!(actions.iter().any(|a| matches!(a, ActorAction::Emit(ImapEvent::Error(e)) if e == "bad")));
}

#[test]
fn a_reply_answers_the_request_it_is_for() {
    let mut actor = connected();
    let actions = actor.step(ActorInput::Command(fetch_headers()));
    assert!(matches!(&actions[..], [ActorAction::Perform(ImapCommand::FetchHeaders { req_id: 7, .. })]));
    let state = MailboxState { uid_validity: 1, uid_next: 2 };
    let actions = actor.step(ActorInput::Done(Reply::Headers { headers: vec![], total_pages: 3, state }));
    assert!(matches!(&actions[..], [ActorAction::Emit(ImapEvent::Headers { page: 2, total_pages: 3, req_id: 7, .. })]));
}

#[test]
fn a_lost_session_is_reconnected_with_growing_waits() {
    let mut actor = connected();
    actor.step(ActorInput::Command(fetch_headers()));
    let actions = actor.step(ActorInput::Failed("reset".to_string()));
    assert!(actions.iter().any(|a| matches!(a, ActorAction::DropSession)));
    let actions = actor.step(ActorInput::Command(fetch_headers()));
    assert!(actions.iter().any(|a| matches!(a, ActorAction::Connect(_))));
    let mut waits = vec![];
    loop {
        let actions = actor.step(ActorInput::ConnectFailed { error: "down".to_string(), permanent: false });
        match actions.iter().find_map(|a| if let ActorAction::Sleep(s) = a { Some(*s) } else { None }) {
            Some(s) => {
                waits.push(s);
                let actions = actor.step(ActorInput::Slept);
                assert!(matches!(&actions[..], [ActorAction::Connect(_)]));
            }
            None => {
                assert!(actions.iter().any(|a| matches!(a, ActorAction::Emit(_))));
                break;
            }
        }
    }
    assert_eq!(waits, vec![1, 2, 4, 8]);
}

#[test]
fn a_poll_never_reconnects() {
    let mut actor = ImapActor::new();
    let actions = actor.step(ActorInput::Command(ImapCommand::PollMailbox { mailbox: "INBOX".to_string() }));
    assert!(!actions.iter().any(|a| matches!(a, ActorAction::Connect(_))));
}

#[test]
fn bodies_go_to_the_download_connection() {
    let mut actor = connected();
    let actions =
        actor.step(ActorInput::Command(ImapCommand::FetchBody { mailbox: "m".to_string(), uid: 4, req_id: 9 }));
    assert!(matches!(&actions[..], [ActorAction::ToWorker(WorkerCommand::FetchBody { uid: 4, req_id: 9, .. })]));
}

#[test]
fn a_run_of_commands_is_answered_in_order() {
    let flags = |uid: u32, req_id: u64| {
        ActorInput::Command(ImapCommand::StoreFlags { mailbox: "m".to_string(), uid, add: vec![], remove: vec![], req_id })
    };
    let inputs = vec![
        ActorInput::Command(ImapCommand::FetchMailboxes),
        ActorInput::Command(ImapCommand::Connect(credentials())),
        ActorInput::Connected,
        flags(1, 11),
        ActorInput::Done(Reply::Flags(vec!["\\Seen".to_string()])),
        flags(2, 12),
        ActorInput::Failed("reset".to_string()),
        ActorInput::Command(ImapCommand::PollMailbox { mailbox: "m".to_string() }),
        flags(3, 13),
        ActorInput::ConnectFailed { error: "down".to_string(), permanent: false },
        ActorInput::Slept,
        ActorInput::Connected,
        ActorInput::Done(Reply::Flags(vec![])),
        flags(4, 14),
        ActorInput::Failed("reset".to_string()),
        ActorInput::Command(ImapCommand::FetchUnreadCounts { mailboxes: vec![] }),
        ActorInput::ConnectFailed { error: "revoked".to_string(), permanent: true },
        fetch_headers_input(),
        ActorInput::ConnectFailed { error: "revoked".to_string(), permanent: true },
    ];
    let mut actor = ImapActor::new();
    let mut told = vec![];
    for input in inputs {
        for action in actor.step(input) {
            if let ActorAction::Emit(event) = action {
                told.push(match event {
                    ImapEvent::Connected => "connected".to_string(),
                    ImapEvent::Disconnected => "disconnected".to_string(),
                    ImapEvent::Error(e) => e,
                    ImapEvent::FlagsUpdated { uid, req_id, .. } => format!("flags {uid} {req_id}"),
                    ImapEvent::FlagsUpdateFailed { uid, req_id, .. } => format!("failed {uid} {req_id}"),
                    _ => panic!("nothing else is told"),
                });
            }
        }
    }
    assert_eq!(
        told,
        vec![
            "not connected yet",
            "connected",
            "flags 1 11",
            "failed 2 12",
            "disconnected",
            "connected",
            "flags 3 13",
            "failed 4 14",
            "disconnected",
            "disconnected",
            "revoked",
        ]
    );
}

fn fetch_headers_input() -> ActorInput {
    ActorInput::Command(fetch_headers())
}

fn body() -> WorkerCommand {
    WorkerCommand::FetchBody { mailbox: "m".to_string(), uid: 4, req_id: 9 }
}

#[test]
fn a_body_request_is_answered_with_its_ids() {
    let mut worker = BodyWorker::new();
    let actions = worker.step(WorkerInput::Command(body()));
    assert!(matches!(&actions[..], [WorkerAction::Connect]));
    let actions = worker.step(WorkerInput::Connected);
    assert!(matches!(&actions[..], [WorkerAction::FetchBody { uid: 4, .. }]));
    let actions = worker.step(WorkerInput::BodyFetched { html: "h".to_string(), attachments: vec![] });
    assert!(matches!(&actions[..], [WorkerAction::Emit(ImapEvent::Body { uid: 4, req_id: 9, html, .. })] if html == "h"));
    worker.step(WorkerInput::Command(body()));
    let actions = worker.step(WorkerInput::Failed("gone".to_string()));
    assert!(actions.iter().any(|a| matches!(a, WorkerAction::Emit(ImapEvent::BodyFailed { uid: 4, req_id: 9, .. }))));
}

#[test]
fn a_run_answers_each_request_once_and_in_order() {
    let fetch = |uid: u32, req_id: u64| {
        WorkerInput::Command(WorkerCommand::FetchBody { mailbox: "m".to_string(), uid, req_id })
    };
    let export = |path: &str| {
        WorkerInput::Command(WorkerCommand::ExportMessage { mailbox: "m".to_string(), uid: 5, path: path.to_string() })
    };
    let inputs = vec![
        fetch(1, 11),
        WorkerInput::ConnectFailed { error: "down".to_string(), permanent: false },
        WorkerInput::Slept,
        WorkerInput::Connected,
        WorkerInput::BodyFetched { html: "h".to_string(), attachments: vec![] },
        export("/a"),
        WorkerInput::RawFetched(vec![1]),
        WorkerInput::WriteFailed("full".to_string()),
        fetch(2, 12),
        WorkerInput::Failed("reset".to_string()),
        fetch(3, 13),
        WorkerInput::ConnectFailed { error: "bad password".to_string(), permanent: true },
        export("/b"),
        WorkerInput::Connected,
        WorkerInput::RawFetched(vec![2]),
        WorkerInput::Written,
    ];
    let mut worker = BodyWorker::new();
    let mut told = vec![];
    let mut connects = vec![];
    for (i, input) in inputs.into_iter().enumerate() {
        for action in worker.step(input) {
            match action {
                WorkerAction::Emit(ImapEvent::Body { uid, req_id, .. }) => told.push(format!("body {uid} {req_id}")),
                WorkerAction::Emit(ImapEvent::BodyFailed { uid, req_id, .. }) => told.push(format!("failed {uid} {req_id}")),
                WorkerAction::Emit(ImapEvent::Exported { path }) => told.push(format!("exported {path}")),
                WorkerAction::Emit(ImapEvent::ExportFailed { error }) => told.push(error),
                WorkerAction::Emit(_) => panic!("nothing else is told"),
                WorkerAction::Connect => connects.push(i),
                _ => {}
            }
        }
    }
    assert_eq!(
        told,
        vec!["body 1 11", "could not write /a: full", "failed 2 12", "failed 3 13", "exported /b"]
    );
    // The failed write kept the session for the next command; the failed fetch
    // did not, and neither did the refused connection.
    assert_eq!(connects, vec![0, 2, 10, 12]);
}

#[test]
fn an_export_writes_the_file_it_was_given() {
    let mut worker = BodyWorker::new();
    worker.step(WorkerInput::Command(WorkerCommand::ExportMessage {
        mailbox: "m".to_string(),
        uid: 4,
        path: "/x.eml".to_string(),
    }));
    let actions = worker.step(WorkerInput::Connected);
    assert!(matches!(&actions[..], [WorkerAction::FetchRaw { uid: 4, .. }]));
    let actions = worker.step(WorkerInput::RawFetched(vec![1, 2]));
    assert!(matches!(&actions[..], [WorkerAction::WriteFile { path, data }] if path == "/x.eml" && *data == vec![1, 2]));
    let actions = worker.step(WorkerInput::Written);
    assert!(matches!(&actions[..], [WorkerAction::Emit(ImapEvent::Exported { path })] if path == "/x.eml"));
}

#[test]
fn a_download_hands_over_every_message() {
    assert!(begin_download("m", 0).is_none());
    let (mut download, event, query) = begin_download("m", 2).unwrap();
    assert_eq!(query, "1:2");
    assert!(matches!(event, ImapEvent::DownloadProgress { current: 0, total: 2 }));
    download.left = vec![Err("lost".to_string()), Ok(FetchedMessage { uid: None, envelope: None, flags: vec![] })];
    assert_eq!(download.next().unwrap_err().message(), "lost");
    assert_eq!(download.next().unwrap_err().message(), "No UID");
    assert_eq!(download.next().unwrap(), None);
    assert!(download.body(None, vec![]).is_none());
}

#[test]
fn a_server_that_cannot_move_is_asked_to_copy_first() {
    assert_eq!(MoveStep::Select.next(true), MoveStep::Move);
    assert_eq!(MoveStep::Move.next(true), MoveStep::Done);
    let steps = [MoveStep::Move.next(false), MoveStep::Copy.next(true), MoveStep::MarkDeleted.next(true), MoveStep::Expunge.next(true)];
    assert_eq!(steps, [MoveStep::Copy, MoveStep::MarkDeleted, MoveStep::Expunge, MoveStep::Done]);
    assert_eq!(MoveStep::Copy.next(false), MoveStep::Failed);
}

#[test]
fn mailboxes_that_did_not_answer_are_not_counted() {
    let answers = vec![("a".to_string(), Some(Some(3))), ("b".to_string(), None), ("c".to_string(), Some(None))];
    let counts = unread_counts(&answers);
    assert_eq!((counts.get("a"), counts.get("b"), counts.get("c")), (Some(3), None, Some(0)));
}

#[test]
fn only_a_push_wakes_the_program() {
    assert_eq!(wake_for(IdleResponse::NewData), Some(MailboxChanged));
    assert_eq!(wake_for(IdleResponse::Timeout), None);
    assert_eq!(wake_for(IdleResponse::ManualInterrupt), None);
}

#[test]
fn the_watch_waits_longer_each_time_until_a_connection_lasts() {
    let mut backoff = Backoff::new();
    let waits: Vec<u64> = (0..7).map(|_| backoff.ended(0)).collect();
    assert_eq!(waits, vec![1, 2, 4, 8, 16, 16, 16]);
    assert_eq!(backoff.ended(60), 1);
    assert_eq!(backoff.ended(59), 2);
}
