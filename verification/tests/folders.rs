use std::collections::BTreeSet;

use esmail::events::{ImapEvent, UnreadCounts};
use esmail::folders::{counted_label, folded_keys, subtree_unread, Light};
use esmail::form::{read_port, LoginForm, ProviderSettings, SavedAccount, TlsMode};
use esmail::imap::{flatten_tree, mailbox_tree, MailHeader, MailboxInfo};
use esmail::search_query::fts_match;
use esmail::selection::select_range;
use esmail::startup::{
    first_page, is_dev_run, launch, log_filter, preview_demo_html, preview_failure, purge_exit_code, starts_tray, startup_note,
    watched_mailbox, FirstPage, Launch,
};
use esmail::state::{AccountView, ConnState, EsMailApp};
use esmail::theme::ThemeMode;

fn info(name: &str) -> MailboxInfo {
    MailboxInfo { name: name.into(), delimiter: Some("/".into()), special_use: None, noselect: false }
}

fn counts(entries: &[(&str, u32)]) -> UnreadCounts {
    let mut c = UnreadCounts::new();
    for (name, n) in entries {
        c.set(name, *n);
    }
    c
}

fn program() -> EsMailApp {
    let mut app = EsMailApp::new(
        vec![
            AccountView::connecting("a".to_string(), "A".to_string(), false),
            AccountView::connecting("b".to_string(), "B".to_string(), false),
        ],
        false,
        vec![],
        false,
        false,
    );
    for id in ["a", "b"] {
        app.handle_imap_event(id, ImapEvent::Mailboxes(vec![info("Inbox"), info("W/X"), info("W/Y")]));
        app.handle_imap_event(id, ImapEvent::UnreadCounts(counts(&[("Inbox", 2), ("W/X", 3), ("W/Y", 4)])));
    }
    app
}

#[test]
fn counts_can_be_set_and_read() {
    let mut c = counts(&[("m", 1)]);
    assert_eq!(c.get("m"), Some(1));
    c.set("m", 2);
    assert_eq!((c.get("m"), c.get("n")), (Some(2), None));
}

#[test]
fn a_folded_folder_tells_of_its_whole_subtree() {
    let rows = flatten_tree(&mailbox_tree(&[info("W"), info("W/X"), info("W/Y")]));
    let c = counts(&[("W", 1), ("W/X", 3), ("W/Y", 4)]);
    assert_eq!(subtree_unread(&rows, &c, 0, &vec![]), Some(1));
    assert_eq!(subtree_unread(&rows, &c, 0, &vec!["W".to_string()]), Some(8));
    let c = counts(&[("W", 1), ("W/X", u32::MAX)]);
    assert_eq!(subtree_unread(&rows, &c, 0, &vec!["W".to_string()]), None);
    assert_eq!(counted_label("W", 8), "W  (8)");
    assert_eq!(counted_label("W", 0), "W");
}

#[test]
fn the_inboxes_are_counted_over_all_accounts() {
    let mut app = program();
    assert_eq!(app.accounts[0].total_unread(), Some(2));
    assert_eq!(app.unread_everywhere(), Some(4));
    app.handle_imap_event("b", ImapEvent::UnreadCounts(counts(&[("Inbox", u32::MAX)])));
    assert_eq!(app.unread_everywhere(), None);
    assert_eq!((app.accounts[1].id(), app.accounts[1].label()), ("b", "B"));
}

#[test]
fn the_open_mailbox_is_marked_in_its_own_account() {
    let mut app = program();
    app.handle_imap_event("a", ImapEvent::Connected);
    app.activate("a", "W/X".to_string());
    let rows: Vec<String> = app.accounts[0].mailbox_rows.iter().map(|r| r.key.clone()).collect();
    assert_eq!(rows, vec!["Inbox", "W", "W\tX", "W\tY"]);
    let line = app.folder_line(&app.accounts[0], 2, &vec![]).unwrap();
    assert!(line.selected && !line.folded);
    assert_eq!(line.text, "X  (3)");
    assert!(!app.folder_line(&app.accounts[1], 2, &vec![]).unwrap().selected);
    let folded = app.folder_line(&app.accounts[0], 1, &vec!["W".to_string()]).unwrap();
    assert!(folded.folded);
    assert_eq!(folded.text, "W  (7)");
}

#[test]
fn folded_folders_are_kept_per_account() {
    let saved = vec!["a\tW".to_string(), "ab\tV".to_string(), "a\tW\tX".to_string(), "a".to_string()];
    assert_eq!(folded_keys(&saved, "a"), vec!["W", "W\tX"]);
    assert_eq!(folded_keys(&saved, "ab"), vec!["V"]);
}

#[test]
fn connections_are_described() {
    assert_eq!((ConnState::Connected.light(), ConnState::Connected.note()), (Light::Green, None));
    assert_eq!(ConnState::Connecting.note().as_deref(), Some("Connecting…"));
    assert_eq!(ConnState::Disconnected.note().as_deref(), Some("Reconnecting…"));
    let failed = ConnState::Failed("no".to_string());
    assert_eq!((failed.light(), failed.note().as_deref()), (Light::Red, Some("no")));
    assert_eq!(ConnState::Disconnected.light(), Light::Amber);
}

#[test]
fn a_range_is_selected_in_the_order_of_the_list() {
    let list: Vec<MailHeader> = [9, 4, 7, 1]
        .iter()
        .map(|uid| MailHeader {
            uid: *uid,
            subject: String::new(),
            from: String::new(),
            to: String::new(),
            date: String::new(),
            message_id: String::new(),
            flags: vec![],
        })
        .collect();
    assert_eq!(select_range(&list, 9, 7), BTreeSet::from([4, 7, 9]));
    assert_eq!(select_range(&list, 7, 9), BTreeSet::from([4, 7, 9]));
    assert_eq!(select_range(&list, 8, 7), BTreeSet::from([7]));
}

// ── The form ────────────────────────────────────────────────────────────────

fn saved() -> SavedAccount {
    SavedAccount {
        imap_host: "imap.x.org".into(),
        imap_port: 143,
        username: "me".into(),
        smtp_host: "smtp.x.org".into(),
        smtp_port: 587,
        smtp_tls: TlsMode::StartTls,
        google: false,
    }
}

fn provider(host: &str) -> ProviderSettings {
    ProviderSettings { imap_host: host.into(), imap_port: 993, smtp_host: format!("smtp.{host}"), smtp_port: 465 }
}

#[test]
fn the_form_starts_from_the_saved_account() {
    let form = LoginForm::new(Some(&saved()), Some("pw".to_string()), true);
    assert_eq!((form.host.as_str(), form.port.as_str(), form.password.as_str()), ("imap.x.org", "143", "pw"));
    assert_eq!((form.smtp_port.as_str(), form.smtp_tls, form.use_oauth), ("587", TlsMode::StartTls, false));
    let form = LoginForm::new(None, None, true);
    assert_eq!((form.host.as_str(), form.port.as_str(), form.smtp_port.as_str()), ("imap.gmail.com", "993", "465"));
    assert!(form.use_oauth && form.offers_google());
    assert!(!LoginForm::new(None, None, false).use_oauth);
}

#[test]
fn a_known_provider_is_filled_in_unless_a_host_was_typed() {
    let mut form = LoginForm::new(None, None, true);
    form.wizard_email = "me@outlook.com".to_string();
    form.apply_provider_wizard(None, true);
    assert_eq!(form.host, "imap.gmail.com");
    form.apply_provider_wizard(Some(&provider("outlook.office365.com")), true);
    assert_eq!((form.host.as_str(), form.username.as_str()), ("outlook.office365.com", "me@outlook.com"));
    assert_eq!(form.smtp_host, "smtp.outlook.office365.com");
    assert!(!form.use_oauth && !form.offers_google());
    form.apply_provider_wizard(Some(&provider("imap.other.org")), true);
    assert_eq!(form.host, "outlook.office365.com");
    let mut form = LoginForm::new(None, None, true);
    form.port = "1993".to_string();
    form.apply_provider_wizard(Some(&provider("outlook.office365.com")), true);
    assert_eq!((form.host.as_str(), form.port.as_str()), ("imap.gmail.com", "1993"), "the port was typed");
}

#[test]
fn an_unticked_google_box_stays_unticked() {
    let mut form = LoginForm::new(None, None, true);
    form.use_oauth = false;
    form.apply_provider_wizard(Some(&provider("imap.gmail.com")), true);
    assert!(!form.use_oauth);
    form.host = String::new();
    form.apply_provider_wizard(Some(&provider("imap.gmail.com")), true);
    assert!(form.use_oauth);
}

#[test]
fn ports_are_numbers_that_fit() {
    assert_eq!((read_port("993"), read_port("+993"), read_port("00993")), (Some(993), Some(993), Some(993)));
    assert_eq!((read_port("65535"), read_port("0")), (Some(65535), Some(0)));
    for wrong in ["", "+", "65536", "99999999999999999999", "9a", "-1", " 1", "1.0"] {
        assert_eq!(read_port(wrong), None, "{wrong}");
        assert_eq!(wrong.parse::<u16>().ok(), None);
    }
}

#[test]
fn the_form_describes_an_account() {
    let mut form = LoginForm::new(None, None, true);
    form.username = " me@gmail.com ".to_string();
    let account = form.account_from_form().unwrap();
    assert_eq!(account.id(), "me@gmail.com@imap.gmail.com");
    assert_eq!((account.imap_port, account.smtp_port, account.google), (993, 465, true));
    form.host = " mail.x.org ".to_string();
    let account = form.account_from_form().unwrap();
    assert_eq!((account.imap_host.as_str(), account.google), ("mail.x.org", false));
    form.smtp_port = "many".to_string();
    assert!(form.account_from_form().is_none());
    let again = LoginForm::new(Some(&account), Some("pw".to_string()), false);
    assert_eq!(again.account_from_form().unwrap().id(), account.id());
}

// ── Starting ────────────────────────────────────────────────────────────────

#[test]
fn arguments_decide_what_a_launch_is_for() {
    let args = |list: &[&str]| list.iter().map(|s| s.to_string()).collect::<Vec<String>>();
    assert_eq!(launch(&args(&["esmail"]), false), Launch::Run);
    assert_eq!(launch(&args(&["esmail"]), true), Launch::Development);
    assert_eq!(launch(&args(&["esmail", "--purge-data"]), true), Launch::PurgeData);
    assert_eq!(launch(&args(&["esmail", "--purge-data", "--quit"]), false), Launch::Quit);
    assert!(is_dev_run(true, false) && is_dev_run(false, true) && !is_dev_run(false, false));
    assert!(starts_tray(false, false));
    assert!(!starts_tray(true, false) && !starts_tray(false, true) && !starts_tray(true, true));
    assert_eq!((purge_exit_code(0), purge_exit_code(3)), (0, 1));
}

#[test]
fn the_html_parser_is_muted_unless_asked_about() {
    assert_eq!(log_filter(None), "warn,fontdb=error,html5ever=error");
    assert_eq!(log_filter(Some("debug".to_string())), "debug,html5ever=error");
    assert_eq!(log_filter(Some("html5ever=warn".to_string())), "html5ever=warn");
}

#[test]
fn a_preview_is_a_page_an_address_or_a_message() {
    assert_eq!(first_page(None), FirstPage::Welcome);
    assert_eq!(first_page(Some("demo")), FirstPage::Demo);
    assert_eq!(first_page(Some("https://x")), FirstPage::Remote("https://x".to_string()));
    assert_eq!(first_page(Some("a.EML")), FirstPage::Message("a.EML".to_string()));
    assert_eq!(first_page(Some("a.html")), FirstPage::File("a.html".to_string()));
    assert_eq!(preview_failure("read", "x", "e"), "<h1>could not read x</h1><p>e</p>");
    let demo = preview_demo_html();
    assert!(demo.starts_with("<!doctype html>\n<meta charset=\"utf-8\">\n<style>\n  body { font:"));
    assert!(demo.ends_with("<h2 id=\"bottom\">Bottom of the page</h2>\n"));
}

#[test]
fn saved_accounts_that_cannot_connect_are_noted_for_google() {
    assert_eq!(startup_note("G", true, Err("revoked".to_string())).as_deref(), Some("G: revoked"));
    assert_eq!(startup_note("P", false, Err("no password".to_string())), None);
    assert_eq!(startup_note("G", true, Ok(Some("expires".to_string()))).as_deref(), Some("expires"));
    assert_eq!(startup_note("G", true, Ok(None)), None);
    assert_eq!((watched_mailbox(None), watched_mailbox(Some("W".to_string()))), ("INBOX".to_string(), "W".to_string()));
}

// ── Theme and search box ────────────────────────────────────────────────────

#[test]
fn the_theme_button_goes_through_every_theme() {
    assert_eq!(ThemeMode::Dark.next(), ThemeMode::Light);
    assert_eq!(ThemeMode::Light.next(), ThemeMode::System);
    assert_eq!(ThemeMode::System.next(), ThemeMode::Dark);
    for theme in [ThemeMode::Dark, ThemeMode::Light, ThemeMode::System] {
        assert_eq!(ThemeMode::named(theme.label()), Some(theme));
    }
    assert_eq!(ThemeMode::named("Blue"), None);
}

#[test]
fn what_is_typed_becomes_a_full_text_query() {
    assert_eq!(fts_match("  two words ").as_deref(), Some("\"two\" \"words\""));
    assert_eq!(fts_match("say \"hi\"").as_deref(), Some("\"say\" \"\"\"hi\"\"\""));
    assert_eq!(
        fts_match("from:ann to:bob subject:x body:y").as_deref(),
        Some("from_addr:\"ann\" to_addr:\"bob\" subject:\"x\" body:\"y\"")
    );
    assert_eq!(fts_match("since:2026 hello is:unread").as_deref(), Some("\"hello\""));
    for nothing in ["", "   ", "before:2026 has:attachment", "from:"] {
        assert_eq!(fts_match(nothing), None);
    }
}
