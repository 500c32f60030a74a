use esmail::compose::ComposeState;
use esmail::compose_window::{ActionBar, ComposeWindow, Focus, Press};

fn window() -> ComposeWindow {
    let mut state = ComposeState::default();
    state.subject = "Hi".to_string();
    ComposeWindow::new(1, state, Focus::To)
}

#[test]
fn a_fresh_window_has_nothing_to_lose() {
    assert!(!window().is_dirty());
}

#[test]
fn typing_makes_it_dirty() {
    let mut w = window();
    w.state.body.push_str("hello");
    assert!(w.is_dirty());
}

#[test]
fn a_send_in_flight_counts_as_dirty_even_with_nothing_typed() {
    let mut w = window();
    assert!(!w.is_dirty());
    w.set_sending(true);
    assert!(w.is_dirty());
    w.set_sending(false);
    assert!(!w.is_dirty());
}

#[test]
fn discard_while_sending_asks_first_instead_of_finishing_immediately() {
    let mut w = window();
    w.set_sending(true);
    w.discard_clicked();
    assert!(!w.is_finished(), "must not finish on the spot while a send is in flight");
    assert!(w.confirm_discard, "must ask before discarding a send still in flight");
}

#[test]
fn discard_with_nothing_in_flight_still_finishes_on_the_spot() {
    let mut w = window();
    w.state.body.push_str("hello");
    w.discard_clicked();
    assert!(w.is_finished());
    assert!(!w.confirm_discard);
}

#[test]
fn a_send_request_is_taken_once() {
    let mut w = window();
    assert!(w.take_send_request().is_none());
    w.send_requested = true;
    assert_eq!(w.take_send_request().map(|c| c.subject), Some("Hi".to_string()));
    assert!(w.take_send_request().is_none());
}

#[test]
fn an_error_unlocks_the_form_and_a_new_send_clears_it() {
    let mut w = window();
    w.set_sending(true);
    w.set_error("nope".to_string());
    assert!(!w.sending);
    assert_eq!(w.error.as_deref(), Some("nope"));
    w.set_sending(true);
    assert!(w.error.is_none());
}

#[test]
fn closing_a_dirty_window_asks_and_a_clean_one_goes() {
    let mut w = window();
    w.state.body.push_str("hello");
    assert_eq!(w.begin_frame(true, false), (true, false));
    assert!(w.confirm_discard && !w.is_finished());

    let mut clean = window();
    assert_eq!(clean.begin_frame(true, false), (false, false));
    assert!(clean.is_finished());
}

#[test]
fn the_send_shortcut_is_off_while_a_question_is_open() {
    let mut w = window();
    assert_eq!(w.begin_frame(false, true), (false, true));
    w.confirm_discard = true;
    assert_eq!(w.begin_frame(false, true), (false, false));
}

#[test]
fn the_action_bar_follows_the_window() {
    let mut w = window();
    assert!(matches!(w.action_bar(), ActionBar::Buttons { send_enabled: true, spinner: false, error: None }));
    w.set_sending(true);
    assert!(matches!(w.action_bar(), ActionBar::Buttons { send_enabled: false, spinner: true, error: None }));
    w.confirm_discard = true;
    assert!(matches!(w.action_bar(), ActionBar::Confirm(q) if q.contains("still in progress")));
    w.set_sending(false);
    assert!(matches!(w.action_bar(), ActionBar::Confirm(q) if q == "Discard this unsent message?"));
}

#[test]
fn buttons_that_are_not_shown_do_nothing() {
    let mut w = window();
    assert!(!w.press(Press::ConfirmDiscard));
    assert!(!w.is_finished());
    assert!(w.press(Press::Send));
    w.confirm_discard = true;
    assert!(!w.press(Press::Send));
    assert!(!w.press(Press::KeepEditing));
    assert!(!w.confirm_discard);
}

#[test]
fn a_saved_draft_does_not_make_the_window_dirty() {
    let mut w = window();
    w.set_draft_id(7);
    assert!(!w.is_dirty());
    assert_eq!(w.snapshot().draft_id, Some(7));
}

#[test]
fn the_title_names_the_subject() {
    let mut w = window();
    assert_eq!(w.title(), "Hi — esMail");
    w.state.subject = "  ".to_string();
    assert_eq!(w.title(), "New message — esMail");
}

#[test]
fn the_from_selector_shows_the_account_label() {
    let mut w = window();
    assert_eq!(w.from_label(), "(choose an account)");
    w.accounts = vec![("a".to_string(), "Alice".to_string()), ("b".to_string(), "Bob".to_string())];
    w.choose_account(1);
    assert_eq!(w.from_label(), "Bob");
    assert_eq!(w.account_id().as_deref(), Some("b"));
}

#[test]
fn attachments_are_listed_with_their_size_and_can_go() {
    let mut w = window();
    w.attach(None, vec![0; 2048]);
    w.attach(Some("a.txt".to_string()), vec![1]);
    assert_eq!(w.attachment_label(0), "attachment (2.0 KB)");
    assert_eq!(w.attachment_label(1), "a.txt (1 B)");
    w.remove_attachment(0);
    assert_eq!(w.attachment_label(0), "a.txt (1 B)");
    w.attach_failed("/x", "denied");
    assert_eq!(w.error.as_deref(), Some("Could not read /x: denied"));
}

#[test]
fn the_caret_goes_to_its_field_once() {
    let mut w = window();
    assert!(!w.take_focus(Focus::Body));
    assert!(w.take_focus(Focus::To));
    assert!(!w.take_focus(Focus::To));
}

#[test]
fn a_frame_that_sends_leaves_a_request_and_clears_the_error() {
    let mut w = window();
    w.set_error("old".to_string());
    w.end_frame(true);
    assert!(w.send_requested);
    assert_eq!(w.error, None);
    w.mark_sent();
    assert!(w.is_finished());
}
