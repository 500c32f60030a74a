use std::collections::BTreeSet;

use esmail::app_keys::{shortcuts, Keys, Pressed, Sender};
use esmail::app_ui::ImageBar;
use esmail::app_windows::Request;
use esmail::db::{DbCommand, DbEvent, SearchHit, SyncPlan};
use esmail::events::{ImapCommand, ImapEvent, UnreadCounts};
use esmail::imap::{Attachment, MailHeader, MailboxInfo, MailboxState, SpecialUse};
use esmail::state::{AccountView, ConnState, Effect, EsMailApp, WindowCommand};
use esmail::tray::TrayAction;

fn header(uid: u32, flags: &[&str]) -> MailHeader {
    MailHeader {
        uid,
        subject: format!("Subject {uid}"),
        from: "alice@example.com".to_string(),
        to: "bob@example.com".to_string(),
        date: "2026-01-01".to_string(),
        message_id: String::new(),
        flags: flags.iter().map(|f| f.to_string()).collect(),
    }
}

fn account(id: &str) -> AccountView {
    AccountView::connecting(id.to_string(), id.to_uppercase(), false)
}

/// A program with two accounts, of which the first is shown.
fn program() -> EsMailApp {
    let mut app = EsMailApp::new(vec![account("a"), account("b")], true, vec![], false, false);
    app.handle_imap_event("a", ImapEvent::Connected);
    app.handle_imap_event("b", ImapEvent::Connected);
    app.take_effects();
    app
}

fn state() -> MailboxState {
    MailboxState { uid_validity: 1, uid_next: 9 }
}

/// A program that lists three messages of its inbox.
fn listing() -> EsMailApp {
    let mut app = program();
    let req_id = app.current_headers_req;
    app.handle_imap_event(
        "a",
        ImapEvent::Headers {
            mailbox: "INBOX".to_string(),
            headers: vec![header(3, &[]), header(2, &["\\Seen"]), header(1, &["\\Seen", "\\Flagged"])],
            page: 1,
            total_pages: 2,
            req_id,
            mailbox_state: state(),
        },
    );
    app.take_effects();
    app
}

fn uids(list: &[MailHeader]) -> Vec<u32> {
    list.iter().map(|h| h.uid).collect()
}

fn counts(entries: &[(&str, u32)]) -> UnreadCounts {
    let mut c = UnreadCounts::new();
    for (name, n) in entries {
        c.set(name, *n);
    }
    c
}

// ── Accounts ────────────────────────────────────────────────────────────────

#[test]
fn the_first_account_to_connect_is_shown() {
    let mut app = EsMailApp::new(vec![account("a"), account("b")], false, vec!["note".to_string()], false, false);
    assert_eq!(app.status, "Ready");
    assert_eq!(app.banners.len(), 1);
    assert_eq!(app.banners[0].message, "note");
    app.handle_imap_event("b", ImapEvent::Connected);
    assert_eq!(app.active.as_deref(), Some("b"));
    assert_eq!(app.status, "Connected: B");
    let effects = app.take_effects();
    assert!(matches!(&effects[0], Effect::Imap { account, cmd: ImapCommand::FetchMailboxes } if account == "b"));
    assert!(matches!(&effects[1], Effect::ShowPage(p) if p.is_empty()));
    assert!(matches!(&effects[2], Effect::Imap { cmd: ImapCommand::FetchHeaders { mailbox, page: 1, .. }, .. } if mailbox == "INBOX"));
    app.handle_imap_event("a", ImapEvent::Connected);
    assert_eq!(app.active.as_deref(), Some("b"));
}

#[test]
fn a_run_that_renders_one_page_has_no_tray_and_a_preview_no_accounts() {
    let start = |preview: bool, screenshot: bool| {
        EsMailApp::new(vec![account("a")], true, vec!["note".to_string()], preview, screenshot)
    };
    let usual = start(false, false);
    assert!(usual.has_tray && !usual.preview);
    assert_eq!((usual.accounts.len(), usual.banners.len()), (1, 1));
    let shot = start(false, true);
    assert!(!shot.has_tray && !shot.preview);
    assert_eq!((shot.accounts.len(), shot.banners.len()), (1, 1));
    for screenshot in [false, true] {
        let preview = start(true, screenshot);
        assert!(!preview.has_tray && preview.preview);
        assert_eq!((preview.accounts.len(), preview.banners.len()), (0, 0));
        assert!(preview.active.is_none());
    }
}

#[test]
fn an_account_from_the_form_is_saved_once_it_connects() {
    let mut app = program();
    app.adding_account = true;
    app.accounts.push(AccountView::connecting("c".to_string(), "C".to_string(), true));
    app.handle_imap_event("a", ImapEvent::Connected);
    assert!(app.adding_account, "a background connect leaves the form alone");
    app.take_effects();
    app.handle_imap_event("c", ImapEvent::Connected);
    assert!(!app.adding_account);
    assert!(app.take_effects().iter().any(|e| matches!(e, Effect::PersistAccount(id) if id == "c")));
    assert!(!app.accounts[2].pending_persist);
}

#[test]
fn events_of_an_account_that_is_gone_are_ignored() {
    let mut app = listing();
    app.handle_imap_event("gone", ImapEvent::Error("x".to_string()));
    app.handle_imap_event("gone", ImapEvent::Moved { mailbox: "INBOX".into(), uid: 3, dest: "T".into(), req_id: 0 });
    assert!(app.banners.is_empty());
    assert_eq!(uids(&app.headers), vec![3, 2, 1]);
    assert!(app.take_effects().is_empty());
}

#[test]
fn an_error_while_connecting_is_final() {
    let mut app = EsMailApp::new(vec![account("a"), account("b")], false, vec![], false, false);
    app.handle_imap_event("a", ImapEvent::Error("bad password".to_string()));
    assert_eq!(app.accounts[0].state, ConnState::Failed("bad password".to_string()));
    assert_eq!(app.banners[0].message, "A: IMAP error: bad password");
    app.handle_imap_event("b", ImapEvent::Connected);
    app.handle_imap_event("b", ImapEvent::Error("quota".to_string()));
    assert_eq!(app.accounts[1].state, ConnState::Connected);
    app.handle_imap_event("b", ImapEvent::Disconnected);
    assert_eq!(app.accounts[1].state, ConnState::Disconnected);
    assert_eq!(app.status, "Connection lost, reconnecting...");
    let id = app.banners[0].id;
    app.dismiss_banner(id);
    assert_eq!(app.banners.len(), 1);
}

#[test]
fn logging_out_shows_the_next_connected_account() {
    let mut app = listing();
    app.search_all_accounts = true;
    app.disconnect_account("a");
    assert_eq!(app.active.as_deref(), Some("b"));
    assert_eq!(app.selected_mailbox, "INBOX");
    assert!(app.headers.is_empty());
    assert!(!app.search_all_accounts);
    assert_eq!(app.status, "Logged out of A");
    app.disconnect_account("b");
    assert_eq!(app.active, None);
    assert!(!app.shows_mail());
}

// ── The list and the reading pane ───────────────────────────────────────────

#[test]
fn late_headers_are_dropped_but_reported_to_the_cache() {
    let mut app = listing();
    app.fetch_headers("INBOX".to_string(), 2);
    app.take_effects();
    app.handle_imap_event(
        "a",
        ImapEvent::Headers {
            mailbox: "INBOX".to_string(),
            headers: vec![],
            page: 9,
            total_pages: 9,
            req_id: app.current_headers_req - 1,
            mailbox_state: state(),
        },
    );
    assert_eq!(app.current_page, 1);
    assert_eq!(app.status, "Page 1 of 2");
    let effects = app.take_effects();
    assert_eq!(effects.len(), 1);
    assert!(matches!(&effects[0], Effect::Db(DbCommand::ReportMailboxState { uid_validity: 1, uid_next: 9, .. })));
}

#[test]
fn late_bodies_are_dropped() {
    let mut app = listing();
    app.open_message(3, false, Some("alice@example.com".to_string()), false, 0);
    let first = app.current_body_req;
    app.open_message(3, true, None, false, 0);
    app.take_effects();
    app.handle_imap_event("a", ImapEvent::Body { uid: 3, html: "old".into(), attachments: vec![], req_id: first });
    assert!(app.take_effects().is_empty());
    let now = app.current_body_req;
    let attachment = Attachment { filename: "f".into(), mime_type: "m".into(), data: vec![] };
    app.handle_imap_event("b", ImapEvent::Body { uid: 3, html: "other".into(), attachments: vec![], req_id: now });
    app.handle_imap_event("a", ImapEvent::Body { uid: 3, html: "new".into(), attachments: vec![attachment], req_id: now });
    assert_eq!(app.current_message_html, "new");
    assert_eq!(app.current_attachments.len(), 1);
}

#[test]
fn a_failed_body_replaces_the_placeholder() {
    let mut app = listing();
    app.open_message(3, false, None, false, 0);
    app.take_effects();
    let req_id = app.current_body_req;
    app.handle_imap_event("a", ImapEvent::BodyFailed { uid: 3, req_id, error: "<gone>".into() });
    assert_eq!(app.current_message_html, "<i>Could not load message: &lt;gone&gt;</i>");
    assert_eq!(app.banners[0].message, "A: Could not load message: <gone>");
}

#[test]
fn an_open_message_is_marked_read_after_a_while() {
    let mut app = listing();
    app.open_message(3, false, None, false, 1000);
    app.take_effects();
    app.handle_mark_seen_delay(2199);
    assert!(app.take_effects().is_empty());
    app.handle_mark_seen_delay(2200);
    let effects = app.take_effects();
    assert!(matches!(&effects[0], Effect::Imap { cmd: ImapCommand::StoreFlags { uid: 3, add, remove, .. }, .. }
        if *add == vec!["\\Seen".to_string()] && remove.is_empty()));
    app.handle_mark_seen_delay(9999);
    assert!(app.take_effects().is_empty());
    app.open_message(2, false, None, false, 0);
    assert_eq!(app.pending_mark_seen, None, "it is known to be read");
}

#[test]
fn changed_flags_reach_the_list_the_counts_and_the_cache() {
    let mut app = listing();
    app.handle_imap_event("a", ImapEvent::UnreadCounts(counts(&[("INBOX", 1)])));
    let event = ImapEvent::FlagsUpdated { mailbox: "INBOX".into(), uid: 3, flags: vec!["\\Seen".into()], req_id: 0 };
    assert!(app.event_fits("a", &event));
    app.handle_imap_event("a", event);
    assert!(app.headers[0].is_seen());
    assert_eq!(app.unread_count("a", "INBOX"), Some(0));
    assert!(matches!(&app.take_effects()[0], Effect::Db(DbCommand::UpdateFlags { uid: 3, .. })));
    app.handle_imap_event("a", ImapEvent::FlagsUpdated { mailbox: "INBOX".into(), uid: 3, flags: vec![], req_id: 0 });
    assert_eq!(app.unread_count("a", "INBOX"), Some(1));
    // Another mailbox with the same UID is another message.
    app.handle_imap_event("a", ImapEvent::FlagsUpdated { mailbox: "Work".into(), uid: 3, flags: vec!["\\Seen".into()], req_id: 0 });
    assert!(!app.headers[0].is_seen());
    app.handle_imap_event("a", ImapEvent::UnreadCounts(counts(&[("INBOX", u32::MAX)])));
    let full = ImapEvent::FlagsUpdated { mailbox: "INBOX".into(), uid: 2, flags: vec![], req_id: 0 };
    assert!(!app.event_fits("a", &full));
}

#[test]
fn a_moved_message_leaves_the_list_and_is_counted_where_it_went() {
    let mut app = listing();
    app.handle_imap_event("a", ImapEvent::UnreadCounts(counts(&[("INBOX", 1), ("Trash", 4)])));
    app.open_message(3, false, None, false, 0);
    app.selected_uids = BTreeSet::from([3, 2]);
    app.take_effects();
    app.handle_imap_event("a", ImapEvent::Moved { mailbox: "INBOX".into(), uid: 3, dest: "Trash".into(), req_id: 0 });
    assert_eq!(uids(&app.headers), vec![2, 1]);
    assert_eq!(selected(&app), vec![2]);
    assert_eq!(app.selected_uid, None);
    assert_eq!(app.status, "Moved to Trash");
    assert_eq!(app.unread_count("a", "INBOX"), Some(0));
    assert_eq!(app.unread_count("a", "Trash"), Some(5));
    let effects = app.take_effects();
    assert!(matches!(&effects[0], Effect::ShowPage(p) if p == "<i>Message moved.</i>"));
    assert!(matches!(&effects[1], Effect::Db(DbCommand::RemoveMessage { uid: 3, .. })));
}

#[test]
fn other_events_are_told_or_passed_on() {
    let mut app = program();
    app.handle_imap_event("a", ImapEvent::Exported { path: "/x".into() });
    assert_eq!(app.status, "Exported message to /x");
    app.handle_imap_event("a", ImapEvent::ExportFailed { error: "e1".into() });
    app.handle_imap_event("a", ImapEvent::AppendFailed { mailbox: "Sent".into(), error: "e2".into() });
    app.handle_imap_event("a", ImapEvent::FlagsUpdateFailed { mailbox: "m".into(), uid: 5, error: "e3".into(), req_id: 0 });
    app.handle_imap_event("a", ImapEvent::MoveFailed { mailbox: "m".into(), uid: 6, error: "e4".into(), req_id: 0 });
    let told: Vec<&str> = app.banners.iter().map(|b| b.message.as_str()).collect();
    assert_eq!(
        told,
        vec![
            "A: Could not export message: e1",
            "A: Sent, but could not save a copy to Sent: e2",
            "A: Could not update flags on message 5: e3",
            "A: Could not move message 6: e4",
        ]
    );
    app.handle_imap_event("a", ImapEvent::MailboxPolled { mailbox: "m".into(), state: state() });
    app.handle_imap_event("a", ImapEvent::Appended { mailbox: "m".into() });
    app.handle_imap_event("a", ImapEvent::PollFailed("e".into()));
    assert!(app.take_effects().is_empty());
    app.handle_imap_event("a", ImapEvent::MailData { mailbox: "m".into(), header: header(1, &[]), body: "b".into(), attachments: vec![] });
    app.handle_imap_event("a", ImapEvent::HeadersFrom { mailbox: "m".into(), headers: vec![header(1, &[])] });
    let effects = app.take_effects();
    assert!(matches!(&effects[0], Effect::Db(DbCommand::IndexMail { .. })));
    assert!(matches!(&effects[1], Effect::Db(DbCommand::IndexHeaders { .. })));
}

#[test]
fn a_download_tells_how_far_it_is() {
    let mut app = program();
    app.handle_imap_event("a", ImapEvent::DownloadProgress { current: 1, total: 2 });
    assert_eq!(app.download_progress, Some((1, 2)));
    app.handle_imap_event("b", ImapEvent::DownloadProgress { current: 5, total: 9 });
    assert_eq!(app.download_progress, Some((1, 2)));
    app.handle_imap_event("a", ImapEvent::DownloadProgress { current: 2, total: 2 });
    assert_eq!(app.download_progress, None);
    assert_eq!(app.status, "Download complete");
}

#[test]
fn listed_mailboxes_make_the_tree_and_are_counted() {
    let mut app = program();
    let info = |name: &str| MailboxInfo { name: name.into(), delimiter: Some("/".into()), special_use: None, noselect: false };
    app.handle_imap_event("b", ImapEvent::Mailboxes(vec![info("Z"), info("A")]));
    let labels: Vec<&str> = app.accounts[1].mailbox_rows.iter().map(|r| r.label.as_str()).collect();
    assert_eq!(labels, vec!["A", "Z"]);
    let effects = app.take_effects();
    assert!(matches!(&effects[0], Effect::Imap { account, cmd: ImapCommand::FetchUnreadCounts { mailboxes } }
        if account == "b" && *mailboxes == vec!["Z".to_string(), "A".to_string()]));
    app.handle_imap_event("b", ImapEvent::NewHeaders { mailbox: "A".into(), headers: vec![] });
    let effects = app.take_effects();
    assert!(matches!(&effects[0], Effect::Imap { cmd: ImapCommand::FetchUnreadCounts { mailboxes }, .. }
        if *mailboxes == vec!["A".to_string(), "Z".to_string()]));
    app.handle_imap_event("a", ImapEvent::NewHeaders { mailbox: "A".into(), headers: vec![] });
    assert!(app.take_effects().is_empty(), "nothing listed, nothing to count");
}

// ── Search ──────────────────────────────────────────────────────────────────

fn hit(account: &str, mailbox: &str, uid: u32) -> SearchHit {
    SearchHit { account_id: account.into(), mailbox: mailbox.into(), header: header(uid, &[]) }
}

fn searching() -> EsMailApp {
    let mut app = listing();
    app.handle_db_event(DbEvent::SearchResult {
        hits: vec![hit("a", "INBOX", 3), hit("b", "Work", 3), hit("gone", "INBOX", 4)],
    });
    app
}

#[test]
fn opening_a_hit_moves_to_where_it_lives() {
    let mut app = searching();
    app.open_search_hit(1, None, false, 0);
    assert_eq!(app.active.as_deref(), Some("b"));
    assert_eq!(app.selected_mailbox, "Work");
    assert!(app.headers_stale);
    assert_eq!(app.selected_header().unwrap().uid, 3);
    let effects = app.take_effects();
    assert!(matches!(effects.last().unwrap(), Effect::Db(DbCommand::FetchMail { account_id, mailbox, uid: 3 })
        if account_id == "b" && mailbox == "Work"));
    app.clear_search();
    assert!(app.search_results.is_none() && app.search_origins.is_empty() && !app.headers_stale);
    assert!(matches!(app.take_effects().last().unwrap(), Effect::Imap { cmd: ImapCommand::FetchHeaders { .. }, .. }));
}

#[test]
fn a_hit_of_an_account_that_is_not_connected_asks_for_the_connection() {
    let mut app = searching();
    app.open_search_hit(2, None, false, 0);
    assert_eq!(app.active.as_deref(), Some("a"));
    assert_eq!(
        app.banners[0].message,
        "gone is not connected. Connect it under Settings > Accounts to open this message."
    );
    app.open_search_hit(7, None, false, 0);
    assert_eq!(app.banners.len(), 1);
}

#[test]
fn flags_and_moves_follow_the_origin_of_a_hit() {
    let mut app = searching();
    app.handle_imap_event("b", ImapEvent::FlagsUpdated { mailbox: "Work".into(), uid: 3, flags: vec!["\\Seen".into()], req_id: 0 });
    let seen: Vec<bool> = app.search_results.as_ref().unwrap().iter().map(|h| h.is_seen()).collect();
    assert_eq!(seen, vec![false, true, false]);
    app.handle_imap_event("b", ImapEvent::Moved { mailbox: "Work".into(), uid: 3, dest: "T".into(), req_id: 0 });
    assert_eq!(uids(app.search_results.as_ref().unwrap()), vec![3, 4]);
    assert_eq!(app.search_origins.len(), 2);
    assert_eq!(app.search_origins[1].0, "gone");
}

#[test]
fn a_cached_body_is_shown_and_a_lost_one_fetched() {
    let mut app = searching();
    app.open_search_hit(0, None, false, 0);
    app.take_effects();
    app.handle_db_event(DbEvent::MailFetched { header: header(3, &[]), body: "cached".into(), attachments: vec![] });
    assert_eq!(app.current_message_html, "cached");
    app.handle_db_event(DbEvent::MailFetched { header: header(9, &[]), body: "other".into(), attachments: vec![] });
    assert_eq!(app.current_message_html, "cached");
    app.take_effects();
    app.handle_db_event(DbEvent::MailFetchFailed { uid: 3, error: "no row".into() });
    let req = app.current_body_req;
    assert!(matches!(&app.take_effects()[0], Effect::Imap { cmd: ImapCommand::FetchBody { uid: 3, req_id, .. }, .. } if *req_id == req));
}

#[test]
fn a_sync_plan_goes_to_its_account() {
    let mut app = program();
    let plan = |plan| DbEvent::SyncPlan { account_id: "b".into(), mailbox: "M".into(), plan };
    app.handle_db_event(plan(SyncPlan::UpToDate));
    assert!(app.take_effects().is_empty());
    app.handle_db_event(plan(SyncPlan::FetchFrom { first_new_uid: 7 }));
    app.handle_db_event(plan(SyncPlan::Resync));
    let effects = app.take_effects();
    assert!(matches!(&effects[0], Effect::Imap { account, cmd: ImapCommand::FetchHeadersFrom { first_uid: 7, .. } } if account == "b"));
    assert!(matches!(&effects[1], Effect::Imap { cmd: ImapCommand::FetchHeadersFrom { first_uid: 1, .. }, .. }));
    app.handle_db_event(DbEvent::Error("disk".into()));
    assert_eq!(app.banners[0].message, "Database error: disk");
}

#[test]
fn a_search_is_scoped_unless_all_accounts_are_asked() {
    let mut app = listing();
    app.search(Some("\"x\"".to_string()));
    assert!(matches!(&app.take_effects()[0], Effect::Db(DbCommand::Search { account_id: Some(a), mailbox: Some(m), .. }) if a == "a" && m == "INBOX"));
    app.search_all_accounts = true;
    app.search(Some("\"x\"".to_string()));
    assert!(matches!(&app.take_effects()[0], Effect::Db(DbCommand::Search { account_id: None, mailbox: None, .. })));
    let mut app = searching();
    app.search(None);
    assert!(app.search_results.is_none());
    let mut app = searching();
    app.search_query = "x".to_string();
    app.clear_search_box();
    assert!(app.search_query.is_empty() && app.search_results.is_none());
}

// ── Bulk actions, clicks and keys ───────────────────────────────────────────

#[test]
fn stars_are_toggled_one_by_one() {
    let mut app = listing();
    app.selected_uids = BTreeSet::from([3, 1]);
    app.toggle_star_on_selection();
    let effects = app.take_effects();
    assert!(matches!(&effects[0], Effect::Imap { cmd: ImapCommand::StoreFlags { uid: 1, add, remove, .. }, .. }
        if add.is_empty() && *remove == vec!["\\Flagged".to_string()]));
    assert!(matches!(&effects[1], Effect::Imap { cmd: ImapCommand::StoreFlags { uid: 3, add, remove, .. }, .. }
        if *add == vec!["\\Flagged".to_string()] && remove.is_empty()));
}

#[test]
fn messages_are_moved_to_the_real_folders() {
    let mut app = listing();
    app.selected_uid = Some(2);
    app.delete_selection();
    assert!(matches!(&app.take_effects()[0], Effect::Imap { cmd: ImapCommand::MoveMessage { uid: 2, dest, .. }, .. } if dest == "Trash"));
    let info = MailboxInfo {
        name: "[Gmail]/Bin".into(),
        delimiter: Some("/".into()),
        special_use: Some(SpecialUse::Trash),
        noselect: false,
    };
    app.handle_imap_event("a", ImapEvent::Mailboxes(vec![info]));
    app.take_effects();
    app.delete_selection();
    assert!(matches!(&app.take_effects()[0], Effect::Imap { cmd: ImapCommand::MoveMessage { dest, .. }, .. } if dest == "[Gmail]/Bin"));
    app.archive_selection();
    assert!(matches!(&app.take_effects()[0], Effect::Imap { cmd: ImapCommand::MoveMessage { dest, .. }, .. } if dest == "Archive"));
    app.store_flags_on_selection(&vec!["\\Seen".to_string()], &vec![]);
    assert_eq!(app.action_targets(), vec![2]);
}

#[test]
fn the_buttons_above_a_message_act_on_that_message_alone() {
    let mut app = listing();
    app.open_message(2, false, None, false, 0);
    app.selected_uids = BTreeSet::from([1, 3]);
    app.take_effects();
    app.toggle_star_on_open();
    app.store_flags_on_open(&vec![], &vec!["\\Seen".to_string()]);
    app.archive_open();
    app.delete_open();
    let effects = app.take_effects();
    assert_eq!(effects.len(), 4);
    assert!(matches!(&effects[0], Effect::Imap { cmd: ImapCommand::StoreFlags { uid: 2, add, .. }, .. }
        if *add == vec!["\\Flagged".to_string()]));
    assert!(matches!(&effects[1], Effect::Imap { cmd: ImapCommand::StoreFlags { uid: 2, remove, .. }, .. }
        if *remove == vec!["\\Seen".to_string()]));
    assert!(matches!(&effects[2], Effect::Imap { cmd: ImapCommand::MoveMessage { uid: 2, dest, .. }, .. } if dest == "Archive"));
    assert!(matches!(&effects[3], Effect::Imap { cmd: ImapCommand::MoveMessage { uid: 2, dest, .. }, .. } if dest == "Trash"));
}

#[test]
fn nothing_is_kept_of_a_message_that_is_not_open() {
    let mut app = listing();
    app.open_message(3, false, Some("a@x".to_string()), false, 0);
    let req_id = app.current_body_req;
    let body = |uid: u32, req_id: u64| ImapEvent::Body { uid, html: "<p>hi</p>".into(), attachments: vec![], req_id };
    app.handle_imap_event("a", body(3, req_id));
    assert_eq!(app.current_message_html, "<p>hi</p>");
    // The next message is being loaded: the last one is not quoted for it.
    app.open_message(2, false, Some("b@x".to_string()), false, 0);
    assert_eq!((app.current_message_html.as_str(), app.current_sender.as_deref()), ("", Some("b@x")));
    let req_id = app.current_body_req;
    app.handle_imap_event("a", body(2, req_id));
    app.handle_imap_event("a", ImapEvent::Moved { mailbox: "INBOX".into(), uid: 2, dest: "Trash".into(), req_id: 0 });
    assert_eq!((app.selected_uid, app.current_sender.as_deref(), app.current_message_html.as_str()), (None, None, ""));
    app.open_message(1, false, Some("c@x".to_string()), false, 0);
    app.activate("a", "Work".to_string());
    assert_eq!((app.selected_uid, app.current_sender.as_deref(), app.current_message_html.as_str()), (None, None, ""));
}

fn click(app: &mut EsMailApp, i: usize, shift: bool, ctrl: bool) {
    app.click_message(i, shift, ctrl, None, false, 0);
}

fn selected(app: &EsMailApp) -> Vec<u32> {
    app.selected_uids.iter().copied().collect()
}

#[test]
fn clicks_select_one_a_range_or_add_to_the_selection() {
    let mut app = listing();
    click(&mut app, 0, false, false);
    assert_eq!((selected(&app), app.select_anchor), (vec![], Some(3)));
    click(&mut app, 2, true, false);
    assert_eq!(selected(&app), vec![1, 2, 3]);
    click(&mut app, 1, false, true);
    assert_eq!(selected(&app), vec![1, 3]);
    click(&mut app, 1, false, true);
    assert_eq!(selected(&app), vec![1, 2, 3]);
    click(&mut app, 1, false, false);
    assert_eq!(app.selected_uid, Some(2));
    click(&mut app, 0, false, true);
    assert_eq!(selected(&app), vec![2, 3]);
    assert!(app.is_selected(0) && app.is_selected(1) && !app.is_selected(2));
    let mut app = searching();
    app.search_all_accounts = true;
    app.select_anchor = Some(3);
    click(&mut app, 2, true, true);
    assert!(app.selected_uids.is_empty());
}

#[test]
fn a_range_starts_at_the_last_plain_click_or_where_the_selection_began() {
    let mut app = listing();
    click(&mut app, 0, false, false);
    click(&mut app, 2, true, false);
    assert_eq!(app.select_anchor, Some(3));
    click(&mut app, 1, false, true);
    assert_eq!(app.select_anchor, Some(3), "taking a message out does not move the start");
    click(&mut app, 1, true, false);
    assert_eq!(selected(&app), vec![2, 3]);
    let mut app = listing();
    click(&mut app, 1, false, true);
    assert_eq!(app.select_anchor, Some(2), "the selection begins here");
    click(&mut app, 2, false, true);
    assert_eq!(app.select_anchor, Some(2));
    click(&mut app, 0, true, false);
    assert_eq!(selected(&app), vec![2, 3]);
}

#[test]
fn only_a_plain_click_or_the_first_of_a_selection_opens_a_message() {
    let mut app = listing();
    app.click_message(0, false, false, Some("a@x".to_string()), true, 5);
    assert_eq!((app.selected_uid, app.current_sender.as_deref()), (Some(3), Some("a@x")));
    assert!(app.allow_remote);
    assert_eq!(app.pending_mark_seen, Some((3, 5)));
    app.take_effects();
    click(&mut app, 1, false, true);
    click(&mut app, 2, true, false);
    assert_eq!(app.selected_uid, Some(3), "extending a selection leaves the message shown alone");
    assert!(app.take_effects().is_empty());
    let mut app = listing();
    click(&mut app, 1, false, true);
    assert_eq!((app.selected_uid, selected(&app)), (Some(2), vec![2]));
    assert!(matches!(
        app.take_effects().last(),
        Some(Effect::Imap { cmd: ImapCommand::FetchBody { uid: 2, .. }, .. })
    ));
    click(&mut app, 0, false, true);
    assert_eq!((app.selected_uid, selected(&app)), (Some(2), vec![2, 3]));
}

fn no_keys() -> Keys {
    shortcuts(false, false, Pressed { f: false, n: false, j: false, k: false, enter: false, r: false, a: false, delete: false, backspace: false })
}

fn senders(n: usize) -> Vec<Sender> {
    (0..n).map(|i| Sender { address: Some(format!("s{i}@x")), trusted: i == 0 }).collect()
}

#[test]
fn keys_mean_different_things_with_control() {
    let pressed = Pressed { f: true, n: true, j: true, k: false, enter: false, r: false, a: false, delete: false, backspace: true };
    let plain = shortcuts(false, false, pressed);
    assert!(plain.star && plain.next && plain.delete && !plain.focus_search && !plain.compose);
    let control = shortcuts(false, true, pressed);
    assert!(control.focus_search && control.compose && !control.star && !control.next && !control.delete);
    assert_eq!(shortcuts(true, false, pressed), no_keys());
    assert_eq!(shortcuts(true, true, pressed), no_keys());
}

#[test]
fn stepping_goes_through_the_list_and_stops_at_its_ends() {
    let mut app = listing();
    let mut down = no_keys();
    down.next = true;
    let mut up = no_keys();
    up.prev = true;
    assert!(app.ids_for_keys());
    for expected in [3, 2, 1, 1] {
        app.handle_keyboard_shortcuts(down, &senders(3), false, 0);
        assert_eq!(app.selected_uid, Some(expected));
    }
    assert_eq!(app.current_sender.as_deref(), Some("s2@x"));
    assert!(!app.allow_remote);
    for expected in [2, 3, 3] {
        app.handle_keyboard_shortcuts(up, &senders(3), false, 0);
        assert_eq!(app.selected_uid, Some(expected));
    }
    assert!(app.allow_remote, "its sender is trusted");
    assert_eq!(app.select_anchor, Some(3));
    let mut empty = program();
    empty.handle_keyboard_shortcuts(down, &vec![], false, 0);
    assert_eq!(empty.selected_uid, None);
}

#[test]
fn stepping_through_hits_opens_them_where_they_live() {
    let mut app = searching();
    let mut down = no_keys();
    down.next = true;
    app.handle_keyboard_shortcuts(down, &senders(3), false, 0);
    assert_eq!(app.selected_mailbox, "INBOX");
    app.handle_keyboard_shortcuts(down, &senders(3), false, 0);
    assert_eq!((app.active.as_deref(), app.selected_mailbox.as_str()), (Some("b"), "Work"));
}

#[test]
fn enter_reopens_a_message_under_its_own_sender() {
    let mut enter = no_keys();
    enter.enter = true;
    let mut app = listing();
    app.click_message(1, false, false, Some("s1@x".to_string()), false, 0);
    app.handle_keyboard_shortcuts(enter, &senders(3), false, 0);
    assert_eq!((app.selected_uid, app.current_sender.as_deref()), (Some(2), Some("s1@x")));
    // Among the hits, the message with the open one's UID lives elsewhere.
    let mut app = searching();
    app.open_search_hit(1, Some("own@x".to_string()), false, 0);
    app.search_origins[1] = ("a".to_string(), "Elsewhere".to_string());
    app.search_origins[0] = ("a".to_string(), "Elsewhere".to_string());
    app.handle_keyboard_shortcuts(enter, &senders(3), true, 0);
    assert_eq!((app.selected_uid, app.current_sender.as_deref()), (Some(3), Some("own@x")));
    assert!(app.allow_remote);
    app.handle_keyboard_shortcuts(enter, &senders(3), false, 0);
    assert_eq!(app.current_sender.as_deref(), Some("own@x"));
    assert!(!app.allow_remote);
}

#[test]
fn shortcuts_write_reply_and_act() {
    let mut app = listing();
    let mut keys = no_keys();
    keys.compose = true;
    keys.focus_search = true;
    app.handle_keyboard_shortcuts(keys, &senders(3), false, 0);
    assert_eq!(app.compose_windows.len(), 1);
    assert_eq!(app.compose_windows[0].account_id().as_deref(), Some("a"));
    assert!(matches!(&app.take_effects()[0], Effect::FocusSearch));
    let mut keys = no_keys();
    keys.next = true;
    keys.enter = true;
    keys.reply = true;
    keys.archive = true;
    keys.star = true;
    keys.delete = true;
    app.handle_keyboard_shortcuts(keys, &senders(3), false, 0);
    assert_eq!(app.compose_windows[1].state.to, "alice@example.com");
    let commands: Vec<&str> = app
        .take_effects()
        .iter()
        .map(|e| match e {
            Effect::Imap { cmd: ImapCommand::FetchBody { .. }, .. } => "body",
            Effect::Imap { cmd: ImapCommand::MoveMessage { dest, .. }, .. } if dest == "Archive" => "archive",
            Effect::Imap { cmd: ImapCommand::MoveMessage { .. }, .. } => "delete",
            Effect::Imap { cmd: ImapCommand::StoreFlags { .. }, .. } => "star",
            Effect::ShowPage(_) => "page",
            _ => "other",
        })
        .collect();
    assert_eq!(commands, vec!["page", "body", "page", "body", "archive", "delete", "star"]);
}

#[test]
fn replies_and_forwards_go_out_from_the_account_shown() {
    let mut app = listing();
    app.current_message_html = "<p>text</p>".to_string();
    let h = header(3, &[]);
    app.reply_to(&h);
    app.reply_to_all(&h, "someone@x");
    app.forward_message(&h);
    app.compose_new();
    let w = &app.compose_windows;
    assert_eq!(w[0].state.subject, "Re: Subject 3");
    assert!(w[0].state.body.ends_with("> text"));
    assert_eq!(w[1].state.cc, "bob@example.com");
    assert_eq!(w[2].state.subject, "Fwd: Subject 3");
    assert_eq!(w[3].state.subject, "");
    assert!(w.iter().all(|w| w.account_id().as_deref() == Some("a")));
    let ids: Vec<u64> = w.iter().map(|w| w.id()).collect();
    assert_eq!(ids, vec![1, 2, 3, 4]);
}

#[test]
fn pages_stay_within_the_mailbox() {
    let mut app = listing();
    app.previous_page();
    assert!(app.take_effects().is_empty());
    app.next_page();
    assert_eq!(app.current_page, 2);
    app.next_page();
    assert_eq!(app.take_effects().len(), 1);
    app.refresh();
    assert!(matches!(&app.take_effects()[0], Effect::Imap { cmd: ImapCommand::FetchHeaders { page: 2, .. }, .. }));
    app.previous_page();
    assert_eq!(app.current_page, 1);
}

#[test]
fn remote_images_are_blocked_until_asked_for() {
    let mut app = listing();
    app.open_message(3, false, Some("al@x".to_string()), false, 0);
    assert_eq!(app.image_bar(false), ImageBar::Blocked { sender: Some("al@x".to_string()) });
    app.allow_images(true);
    assert_eq!(app.image_bar(false), ImageBar::Hidden);
    app.take_effects();
    app.trust_sender(true);
    assert_eq!(app.image_bar(true), ImageBar::Trusted { sender: "al@x".to_string() });
    let effects = app.take_effects();
    assert!(matches!(&effects[0], Effect::TrustSender { address, trusted: true } if address == "al@x"));
    assert!(matches!(&effects[1], Effect::ReloadPage));
    app.trust_sender(false);
    assert!(!app.allow_remote);
    app.open_message(2, false, None, true, 0);
    assert!(app.allow_remote);
    assert_eq!(app.image_bar(true), ImageBar::Hidden);
}

// ── The window ──────────────────────────────────────────────────────────────

#[test]
fn requests_of_a_later_launch_are_followed() {
    let mut app = program();
    app.handle_request(Request::Show);
    let effects = app.take_effects();
    assert!(matches!(&effects[0], Effect::Window(WindowCommand::Show)));
    assert_eq!(effects.len(), 3);
    app.handle_request(Request::Quit);
    assert!(app.exit_requested);
    assert!(matches!(&app.take_effects()[0], Effect::Window(WindowCommand::Close)));
}

#[test]
fn a_clicked_notice_opens_its_account() {
    let mut app = listing();
    app.adding_account = true;
    app.handle_toast_click("gone", None);
    assert!(app.adding_account);
    app.handle_toast_click("b", Some("Watched".to_string()));
    assert_eq!((app.active.as_deref(), app.selected_mailbox.as_str()), (Some("b"), "Watched"));
    assert!(!app.adding_account);
    app.handle_toast_click("a", None);
    assert_eq!(app.selected_mailbox, "INBOX");
}

#[test]
fn closing_hides_with_a_tray_and_asks_without() {
    let mut app = program();
    app.close_without_tray();
    assert!(app.take_effects().is_empty());
    app.close_with_tray();
    assert!(matches!(&app.take_effects()[..], [Effect::Window(WindowCommand::CancelClose), Effect::Window(WindowCommand::Hide)]));
    app.has_tray = false;
    app.close_with_tray();
    app.close_without_tray();
    assert!(app.take_effects().is_empty());
    app.compose_new();
    app.compose_windows[0].state.body.push('x');
    app.close_without_tray();
    assert!(app.confirm_quit);
    assert!(matches!(&app.take_effects()[0], Effect::Window(WindowCommand::CancelClose)));
    app.note_closing();
    assert!(!app.geometry_saved_on_close);
    assert!(app.quit_question());
    app.answer_quit(false);
    assert!(!app.exit_requested);
    app.handle_tray_action(TrayAction::Quit);
    app.answer_quit(true);
    assert!(app.exit_requested);
    app.take_effects();
    app.note_closing();
    app.note_closing();
    assert!(matches!(&app.take_effects()[..], [Effect::SaveGeometry]));
}

#[test]
fn the_question_about_quitting_goes_once_nothing_is_unsent() {
    let mut app = program();
    app.compose_new();
    app.compose_windows[0].state.body.push('x');
    app.request_quit();
    assert!(app.confirm_quit && app.has_unsent_compose());
    app.compose_windows.clear();
    assert!(!app.quit_question());
    app.handle_tray_action(TrayAction::Show);
    app.request_quit();
    assert!(app.exit_requested);
}

#[test]
fn texts_around_the_list() {
    let mut app = searching();
    assert_eq!(app.list_title(), "Search Results");
    assert_eq!(app.origin_label(0), None);
    app.search_all_accounts = true;
    assert_eq!(app.origin_label(1).as_deref(), Some("B \u{b7} Work"));
    assert_eq!(app.logout_label(), "Logout A");
    app.clear_search();
    assert_eq!(app.list_title(), "INBOX");
    app.take_effects();
    app.export_message(3, "/tmp/x.eml".to_string());
    assert_eq!(app.status, "Exporting message to /tmp/x.eml...");
    app.download_mailbox();
    let effects = app.take_effects();
    assert!(matches!(&effects[0], Effect::Imap { cmd: ImapCommand::ExportMessage { uid: 3, .. }, .. }));
    assert!(matches!(&effects[1], Effect::Imap { cmd: ImapCommand::BulkDownload { .. }, .. }));
    app.set_adding_account(true);
    assert!(!app.shows_mail());
}

#[test]
fn the_program_stays_in_order_whatever_happens() {
    let mut app = listing();
    click(&mut app, 0, false, true);
    click(&mut app, 2, false, true);
    click(&mut app, 1, false, true);
    assert_eq!(selected(&app), vec![1, 2, 3]);
    assert_eq!(app.action_targets(), vec![1, 2, 3]);
    app.handle_imap_event(
        "a",
        ImapEvent::Moved { mailbox: "INBOX".to_string(), uid: 2, dest: "Trash".to_string(), req_id: 1 },
    );
    assert_eq!(selected(&app), vec![1, 3]);
    app.compose_new();
    app.compose_new();
    app.close_compose(1);
    app.compose_new();
    let ids: Vec<u64> = app.compose_windows.iter().map(|w| w.id()).collect();
    assert_eq!(ids, vec![2, 3]);
    app.handle_db_event(DbEvent::SearchResult { hits: vec![hit("a", "INBOX", 1), hit("b", "Work", 1)] });
    app.handle_imap_event(
        "b",
        ImapEvent::Moved { mailbox: "Work".to_string(), uid: 1, dest: "Trash".to_string(), req_id: 2 },
    );
    assert_eq!(app.search_results.as_ref().map(Vec::len), Some(app.search_origins.len()));
    assert_eq!(app.search_origins, vec![("a".to_string(), "INBOX".to_string())]);
}
