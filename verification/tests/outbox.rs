use esmail::app_windows::{attachment_label, listed_label, sender_label, spoken_label, subject_label};
use esmail::compose::ComposeState;
use esmail::compose_window::Focus;
use esmail::events::{ImapCommand, ImapEvent};
use esmail::imap::{Attachment, MailHeader};
use esmail::state::{
    AccountView, DraftSummary, Effect, EsMailApp, OutboxItem, QueueCommand, QueueEvent, SmtpEvent,
};

fn program() -> EsMailApp {
    let a = AccountView::connecting("a".to_string(), "A".to_string(), false);
    let mut app = EsMailApp::new(vec![a], true, vec![], false, false);
    app.handle_imap_event("a", ImapEvent::Connected);
    app.take_effects();
    app
}

fn message(subject: &str) -> ComposeState {
    let mut m = ComposeState::default();
    m.subject = subject.to_string();
    m.account_id = Some("a".to_string());
    m
}

fn ready() -> Vec<String> {
    vec!["a".to_string()]
}

/// A program whose first window asked for its message to be sent.
fn sending() -> EsMailApp {
    let mut app = program();
    app.open_compose(message("hello"), Focus::To);
    app.compose_windows[0].end_frame(true);
    app.process_compose_windows(&ready());
    app
}

fn item(id: i64) -> OutboxItem {
    OutboxItem { id, account_id: "a".to_string(), compose: message("queued"), attempts: 1, last_error: None }
}

#[test]
fn a_send_goes_out_once() {
    let mut app = sending();
    assert!(app.compose_windows[0].sending);
    let effects = app.take_effects();
    assert!(matches!(&effects[0], Effect::Smtp { id: 1, account, compose } if account == "a" && compose.subject == "hello"));
    assert!(matches!(&effects[1], Effect::RepaintCompose(1)));
    app.process_compose_windows(&ready());
    assert!(app.take_effects().is_empty());
}

#[test]
fn a_send_without_an_account_or_password_says_so() {
    let mut app = program();
    app.open_compose(ComposeState::default(), Focus::To);
    app.compose_windows[0].end_frame(true);
    app.process_compose_windows(&ready());
    assert_eq!(app.compose_windows[0].error.as_deref(), Some("Choose an account to send from."));
    app.compose_windows[0].state.account_id = Some("b".to_string());
    app.compose_windows[0].end_frame(true);
    app.process_compose_windows(&ready());
    assert_eq!(
        app.compose_windows[0].error.as_deref(),
        Some("No SMTP password on file yet — connect once via IMAP first.")
    );
    assert!(!app.take_effects().iter().any(|e| matches!(e, Effect::Smtp { .. })));
}

#[test]
fn a_refused_send_unlocks_the_window() {
    let mut app = sending();
    app.send_was_refused(1);
    assert!(!app.compose_windows[0].sending);
    assert_eq!(app.compose_windows[0].error.as_deref(), Some("Could not queue the message for sending."));
    assert!(app.sending_from.is_empty());
    app.send_was_refused(9);
}

#[test]
fn finished_windows_close() {
    let mut app = program();
    app.open_compose(message("x"), Focus::To);
    app.open_compose(message("y"), Focus::To);
    app.compose_windows[0].discard_clicked();
    app.process_compose_windows(&ready());
    assert_eq!(app.compose_windows.len(), 1);
    assert_eq!(app.compose_windows[0].id(), 2);
    assert!(matches!(&app.take_effects()[..], [Effect::HideCompose(1), Effect::Repaint]));
}

#[test]
fn a_sent_message_closes_its_window_and_is_saved() {
    let mut app = sending();
    app.compose_windows[0].set_draft_id(5);
    app.take_effects();
    app.handle_smtp_event(SmtpEvent::Sent { id: 1, raw: vec![1, 2] });
    assert!(app.compose_windows.is_empty());
    assert_eq!(app.status, "Message sent");
    let effects = app.take_effects();
    assert!(matches!(&effects[0], Effect::Queue(QueueCommand::DeleteDraft { id: 5 })));
    assert!(matches!(&effects[1], Effect::HideCompose(1)));
    assert!(matches!(&effects[3], Effect::Imap { cmd: ImapCommand::Append { mailbox, raw }, .. } if mailbox == "Sent" && *raw == vec![1, 2]));
}

#[test]
fn a_failed_send_is_kept_and_retried() {
    let mut app = sending();
    app.take_effects();
    app.handle_smtp_event(SmtpEvent::Error { id: 1, error: "down".to_string() });
    assert_eq!(app.compose_windows[0].error.as_deref(), Some("Send failed: down"));
    assert_eq!(app.compose_windows[0].state.subject, "hello");
    let effects = app.take_effects();
    assert!(matches!(&effects[0], Effect::Queue(QueueCommand::EnqueueOutbox { id: None, compose_id: 1, account_id, .. }) if account_id == "a"));
    app.handle_queue_event(QueueEvent::OutboxEnqueued { id: 70, compose_id: 1 }, &ready());
    // While the window is open, the row is left to it.
    app.handle_queue_event(QueueEvent::OutboxDue { items: vec![item(70)] }, &ready());
    assert!(app.take_effects().is_empty());
    app.compose_windows[0].end_frame(true);
    app.process_compose_windows(&ready());
    assert!(app.outbox_in_flight.contains(&70));
    app.take_effects();
    app.handle_smtp_event(SmtpEvent::Error { id: 1, error: "still down".to_string() });
    assert!(matches!(&app.take_effects()[0], Effect::Queue(QueueCommand::MarkOutboxFailed { id: 70, .. })));
    assert!(!app.outbox_in_flight.contains(&70));
    app.close_compose(1);
    assert!(app.outbox_owner.is_empty());
    app.take_effects();
    app.handle_queue_event(QueueEvent::OutboxDue { items: vec![item(70)] }, &ready());
    assert!(matches!(&app.take_effects()[0], Effect::Smtp { id: 2, .. }));
    app.handle_queue_event(QueueEvent::OutboxDue { items: vec![item(70)] }, &ready());
    assert!(app.take_effects().is_empty(), "one attempt at a time");
    app.handle_smtp_event(SmtpEvent::Sent { id: 2, raw: vec![] });
    assert!(matches!(&app.take_effects()[0], Effect::Queue(QueueCommand::MarkOutboxSent { id: 70 })));
    assert!(app.outbox_in_flight.is_empty() && app.outbox_owner.is_empty());
}

#[test]
fn a_row_is_settled_although_its_window_closed_during_the_send() {
    let mut app = sending();
    app.handle_queue_event(QueueEvent::OutboxEnqueued { id: 8, compose_id: 1 }, &ready());
    app.close_compose(1);
    app.take_effects();
    app.handle_smtp_event(SmtpEvent::Sent { id: 1, raw: vec![] });
    assert!(matches!(&app.take_effects()[0], Effect::Queue(QueueCommand::MarkOutboxSent { id: 8 })));
}

#[test]
fn a_failure_without_a_window_is_told_in_the_main_window() {
    let mut app = sending();
    app.close_compose(1);
    app.take_effects();
    app.handle_smtp_event(SmtpEvent::Error { id: 1, error: "x".to_string() });
    assert_eq!(app.banners[0].message, "Send failed: x");
    assert!(app.take_effects().is_empty());
}

#[test]
fn a_row_whose_account_cannot_send_is_put_off() {
    let mut app = program();
    app.handle_queue_event(QueueEvent::OutboxDue { items: vec![item(1)] }, &vec![]);
    assert!(matches!(&app.take_effects()[0], Effect::Queue(QueueCommand::MarkOutboxFailed { id: 1, error })
        if error == "No SMTP password on file for this account"));
    assert!(app.ids_for(&QueueEvent::OutboxDue { items: vec![item(1)] }));
}

#[test]
fn the_outbox_is_asked_every_twenty_seconds() {
    let mut app = program();
    app.poll_outbox(5);
    assert!(matches!(&app.take_effects()[0], Effect::Queue(QueueCommand::DueOutbox)));
    app.poll_outbox(20_004);
    assert!(app.take_effects().is_empty());
    app.poll_outbox(20_005);
    assert_eq!(app.take_effects().len(), 1);
}

#[test]
fn windows_save_themselves_every_five_seconds() {
    let mut app = program();
    app.open_compose(ComposeState::default(), Focus::To);
    app.open_compose(message("s"), Focus::To);
    app.autosave_drafts(0);
    let effects = app.take_effects();
    assert_eq!(effects.len(), 1, "an empty message is not worth saving");
    assert!(matches!(&effects[0], Effect::Queue(QueueCommand::SaveDraft { id: None, compose_id: 2, .. })));
    app.handle_queue_event(QueueEvent::DraftSaved { id: 3, compose_id: 2 }, &ready());
    app.autosave_drafts(4_999);
    assert!(app.take_effects().is_empty());
    app.autosave_drafts(5_000);
    assert!(matches!(&app.take_effects()[0], Effect::Queue(QueueCommand::SaveDraft { id: Some(3), .. })));
    app.close_compose(2);
    assert!(!app.compose_last_autosave.contains_key(&2));
    assert!(app.compose_last_autosave.contains_key(&1));
}

#[test]
fn drafts_are_listed_opened_and_deleted() {
    let mut app = program();
    app.open_drafts();
    assert!(matches!(&app.take_effects()[0], Effect::Queue(QueueCommand::ListDrafts)));
    let draft = |id| DraftSummary { id, to: String::new(), subject: "s".to_string() };
    app.handle_queue_event(QueueEvent::DraftList { items: vec![draft(1), draft(2)] }, &ready());
    app.delete_draft(1);
    assert_eq!(app.drafts_window.as_ref().unwrap().len(), 1);
    app.load_draft(2);
    let effects = app.take_effects();
    assert!(matches!(&effects[0], Effect::Queue(QueueCommand::DeleteDraft { id: 1 })));
    assert!(matches!(&effects[1], Effect::Queue(QueueCommand::LoadDraft { id: 2 })));
    app.handle_queue_event(QueueEvent::DraftLoaded { id: 2, compose: message("s") }, &ready());
    assert!(app.drafts_window.is_none());
    assert_eq!(app.compose_windows[0].state.draft_id, Some(2));
    assert!(!app.compose_windows[0].is_dirty());
}

#[test]
fn outgoing_mail_is_listed_edited_and_deleted() {
    let mut app = program();
    app.open_outbox();
    app.handle_queue_event(QueueEvent::OutboxList { items: vec![item(1), item(2), item(3)] }, &ready());
    app.take_effects();
    app.edit_outbox_item(2);
    assert!(matches!(&app.take_effects()[0], Effect::Queue(QueueCommand::DeleteOutbox { id: 2 })));
    assert_eq!(app.compose_windows[0].state.subject, "queued");
    assert_eq!(app.compose_windows[0].account_id().as_deref(), Some("a"));
    app.edit_outbox_item(2);
    assert_eq!(app.compose_windows.len(), 1);
    app.delete_outbox_item(1);
    let left: Vec<i64> = app.outbox_window.as_ref().unwrap().iter().map(|i| i.id).collect();
    assert_eq!(left, vec![3]);
    app.close_outbox();
    assert!(app.outbox_window.is_none());
    app.close_drafts();
}

#[test]
fn queued_messages_tell_how_often_they_were_tried() {
    let mut i = item(1);
    assert_eq!(i.retry_detail().as_deref(), Some("retried 1 time(s)"));
    i.last_error = Some("down".to_string());
    i.attempts = 2;
    assert_eq!(i.retry_detail().as_deref(), Some("retried 2 time(s): down"));
    i.attempts = 0;
    assert_eq!(i.retry_detail(), None);
    assert_eq!(listed_label("", ""), "(no subject) — (no recipient)");
    assert_eq!(listed_label("bob", "hi"), "hi — bob");
}

#[test]
fn messages_are_announced_with_their_state() {
    let mut h = MailHeader {
        uid: 1,
        subject: String::new(),
        from: "x".to_string(),
        to: String::new(),
        date: "today".to_string(),
        message_id: String::new(),
        flags: vec![],
    };
    assert_eq!(spoken_label("", &h), "Unread. (unknown sender): (no subject). today");
    h.flags = vec!["\\Flagged".to_string()];
    h.subject = "S".to_string();
    assert_eq!(spoken_label("Al", &h), "Unread, starred. Al: S. today");
    h.flags = vec!["\\Seen".to_string()];
    assert_eq!(spoken_label("Al", &h), "Al: S. today");
    h.flags.push("\\Flagged".to_string());
    assert_eq!(spoken_label("Al", &h), "Starred. Al: S. today");
    assert_eq!((sender_label(""), subject_label(&h)), ("(unknown sender)".to_string(), "S".to_string()));
    let a = Attachment { filename: "f".into(), mime_type: "t/x".into(), data: vec![0; 3] };
    assert_eq!(attachment_label(&a), "f — t/x, 3 B");
}

#[test]
fn every_compose_window_offers_every_account() {
    let a = AccountView::connecting("a".to_string(), "Work".to_string(), false);
    let b = AccountView::connecting("b".to_string(), "Home".to_string(), false);
    let mut app = EsMailApp::new(vec![a, b], true, vec![], false, false);
    app.open_compose(message("one"), Focus::To);
    app.open_compose(message("two"), Focus::Body);
    app.show_compose_windows();
    let offered = vec![("a".to_string(), "Work".to_string()), ("b".to_string(), "Home".to_string())];
    assert_eq!(app.senders(), offered);
    for window in &app.compose_windows {
        assert_eq!(window.accounts, offered);
        assert_eq!(window.from_label(), "Work");
    }
}
