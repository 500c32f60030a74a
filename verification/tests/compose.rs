use esmail::html::unescape;
use esmail::compose::{add_prefix, quote_original, quote_plain, ComposeState};
use esmail::imap::MailHeader;

fn original() -> MailHeader {
    MailHeader {
        uid: 1,
        subject: "Dinner plans".to_string(),
        from: "Alice <alice@example.com>".to_string(),
        to: "Bob <bob@example.com>".to_string(),
        date: "Mon, 1 Jan 2026 12:00:00 +0000".to_string(),
        message_id: "<abc123@example.com>".to_string(),
        flags: Vec::new(),
    }
}

#[test]
fn reply_addresses_the_original_sender() {
    let state = ComposeState::reply(&original(), "<p>See you at 7</p>");
    assert_eq!(state.to, "Alice <alice@example.com>");
    assert_eq!(state.cc, "");
}

#[test]
fn reply_prefixes_the_subject_once() {
    let state = ComposeState::reply(&original(), "body");
    assert_eq!(state.subject, "Re: Dinner plans");
}

#[test]
fn replying_to_a_reply_does_not_double_the_prefix() {
    let mut msg = original();
    msg.subject = "Re: Dinner plans".to_string();
    let state = ComposeState::reply(&msg, "body");
    assert_eq!(state.subject, "Re: Dinner plans");
}

#[test]
fn reply_sets_in_reply_to_and_references_from_the_message_id() {
    let state = ComposeState::reply(&original(), "body");
    assert_eq!(state.in_reply_to.as_deref(), Some("<abc123@example.com>"));
    assert_eq!(state.references.as_deref(), Some("<abc123@example.com>"));
}

#[test]
fn reply_to_a_message_with_no_message_id_leaves_threading_headers_unset() {
    let mut msg = original();
    msg.message_id = String::new();
    let state = ComposeState::reply(&msg, "body");
    assert_eq!(state.in_reply_to, None);
    assert_eq!(state.references, None);
}

#[test]
fn reply_quotes_the_body_as_plain_text_with_an_attribution_line() {
    let state = ComposeState::reply(&original(), "<p>See you at <b>7</b></p>");
    assert!(state.body.contains("Alice <alice@example.com> wrote"));
    assert!(state.body.contains("> See you at 7"));
    assert!(!state.body.contains("<p>"));
    assert!(!state.body.contains("<b>"));
}

#[test]
fn reply_all_ccs_the_original_recipient_when_it_is_not_me() {
    let state = ComposeState::reply_all(&original(), "body", "someone-else@example.com");
    assert_eq!(state.cc, "Bob <bob@example.com>");
}

#[test]
fn reply_all_drops_myself_from_cc_rather_than_ccing_my_own_address() {
    let state = ComposeState::reply_all(&original(), "body", "bob@example.com");
    assert_eq!(state.cc, "");
}

#[test]
fn forward_addresses_nobody_and_does_not_reply_to_anything() {
    let state = ComposeState::forward(&original(), "body");
    assert_eq!(state.to, "");
    assert_eq!(state.in_reply_to, None);
    assert_eq!(state.references, None);
}

#[test]
fn forward_prefixes_the_subject_with_fwd() {
    let state = ComposeState::forward(&original(), "body");
    assert_eq!(state.subject, "Fwd: Dinner plans");
}

#[test]
fn a_blank_compose_state_has_no_threading_headers() {
    let state = ComposeState::default();
    assert_eq!(state.to, "");
    assert_eq!(state.in_reply_to, None);
}

#[test]
fn a_prefix_is_recognized_in_any_case() {
    assert_eq!(add_prefix("RE: hello", "Re:"), "RE: hello");
    assert_eq!(add_prefix("hello", "Re:"), "Re: hello");
    assert_eq!(add_prefix("Re-entry", "Re:"), "Re: Re-entry");
}

#[test]
fn the_quotation_names_date_and_sender_and_marks_every_line() {
    let body = quote_plain(&original(), "one\ntwo");
    assert_eq!(
        body,
        "\n\nOn Mon, 1 Jan 2026 12:00:00 +0000, Alice <alice@example.com> wrote:\n> one\n> two"
    );
}

#[test]
fn markup_is_stripped_before_quoting() {
    let body = quote_original(&original(), "<p>fish &amp; <i>chips</i></p>");
    assert!(body.ends_with("> fish & chips"));
}

#[test]
fn the_quotation_reads_as_the_message_did() {
    let mut header = original();
    header.date = "D".to_string();
    header.from = "F".to_string();
    let body = quote_original(&header, "<p>Tom &amp; Jerry</p>\nx");
    assert_eq!(body, "\n\nOn D, F wrote:\n> Tom & Jerry\n> x");
    let reply = ComposeState::reply(&header, "a &lt;b&gt;&nbsp;c");
    assert_eq!(reply.body, "\n\nOn D, F wrote:\n> a <b>\u{a0}c");
    let forward = ComposeState::forward(&header, "written out: &amp;lt;");
    assert!(forward.body.ends_with("> written out: &lt;"));
}

#[test]
fn entities_are_read_once_from_left_to_right() {
    assert_eq!(unescape("&amp;lt; &amp;amp;"), "&lt; &amp;");
    assert_eq!(unescape("&lt;i&gt;&nbsp;&"), "<i>\u{a0}&");
    assert_eq!(unescape("&am &quot; &&gt;"), "&am &quot; &>");
    assert_eq!(unescape("nothing"), "nothing");
}

#[test]
fn a_reply_to_known_text_quotes_it_as_it_is() {
    let state = ComposeState::reply_to_text(&original(), "plain");
    assert!(state.body.ends_with("wrote:\n> plain"));
    assert_eq!(state.subject, "Re: Dinner plans");
}

#[test]
fn a_message_is_sent_from_the_account_it_is_given() {
    let state = ComposeState::default().with_account(Some("me@host".to_string()));
    assert_eq!(state.account_id.as_deref(), Some("me@host"));
}
