//! How the program starts: what it was asked to do, what it shows at first, and
//! which accounts it connects.

use vstd::prelude::*;
use vstd::string::*;
use std::collections::{BTreeSet, HashMap, HashSet};
use crate::app_windows::DEFAULT_WATCH_MAILBOX;
use crate::events::UnreadCounts;
use crate::state;
use crate::state::{AccountModel, AccountView, AppModel, ConnState, ConnStateModel, EsMailApp};
use crate::text;
use crate::text::Text;

verus! {

broadcast use {vstd::string::group_string_axioms, vstd::std_specs::hash::group_hash_axioms};

// ── What was asked for ──────────────────────────────────────────────────────

/// What a launch of the program is for.
#[derive(Debug, Clone, Copy, PartialEq, Eq, Structural)]
pub enum Launch {
    /// Ask the running copy to exit.
    Quit,
    /// Remove the user's settings and data.
    PurgeData,
    /// Render one page and exit: not the running mail client.
    Development,
    /// Run, unless another copy is running.
    Run,
}

/// What a launch is for, by its arguments and whether it is a development run.
pub open spec fn launch_of(args: Seq<Text>, development: bool) -> Launch {
    if args.contains("--quit"@) {
        Launch::Quit
    } else if args.contains("--purge-data"@) {
        Launch::PurgeData
    } else if development {
        Launch::Development
    } else {
        Launch::Run
    }
}

/// Whether an argument was given.
fn given(args: &Vec<String>, wanted: &str) -> (r: bool)
    ensures
        r == args.deep_view().contains(wanted@),
{
    let ghost all = args.deep_view();
    let mut i: usize = 0;
    while i < args.len()
        invariant
            i <= args@.len(),
            all == args.deep_view(),
            forall|j: int| 0 <= j < i ==> #[trigger] all[j] != wanted@,
        decreases args@.len() - i,
    {
        assert(all[i as int] == args@[i as int]@);
        if text::same(args[i].as_str(), wanted) {
            return true;
        }
        i += 1;
    }
    false
}

/// What a launch is for.
pub fn launch(args: &Vec<String>, development: bool) -> (r: Launch)
    ensures
        r == launch_of(args.deep_view(), development),
{
    if given(args, "--quit") {
        Launch::Quit
    } else if given(args, "--purge-data") {
        Launch::PurgeData
    } else if development {
        Launch::Development
    } else {
        Launch::Run
    }
}

/// Whether a run is one for development: a preview or a screenshot.
pub open spec fn is_development(preview: bool, screenshot: bool) -> bool {
    preview || screenshot
}

/// The exit code after removing data, by how many things could not be removed.
pub open spec fn exit_code_after(problems: nat) -> int {
    if problems == 0 {
        0
    } else {
        1
    }
}

/// Whether this run renders one page and exits.
pub fn is_dev_run(preview: bool, screenshot: bool) -> (r: bool)
    ensures
        r == is_development(preview, screenshot),
{
    preview || screenshot
}

/// Whether this run puts an icon in the tray: a run that renders one page and
/// exits does not.
pub fn starts_tray(preview: bool, screenshot: bool) -> (r: bool)
    ensures
        r == !is_development(preview, screenshot),
{
    !is_dev_run(preview, screenshot)
}

/// The exit code after removing data, by how many things could not be removed.
pub fn purge_exit_code(problems: usize) -> (r: i32)
    ensures
        r == exit_code_after(problems as nat),
{
    if problems == 0 {
        0
    } else {
        1
    }
}

// ── Logging ─────────────────────────────────────────────────────────────────

/// What is logged unless something else is asked for.
pub const QUIET: &'static str = "warn,fontdb=error";

/// What is logged: what was asked for, but nothing from the HTML parser, unless
/// that is what was asked about.
pub open spec fn filter_of(wanted: Option<Text>) -> Text {
    let filter = match wanted {
        Some(w) => w,
        None => QUIET@,
    };
    if text::contains(filter, "html5ever"@) {
        filter
    } else {
        filter + ",html5ever=error"@
    }
}

/// What is logged.
pub fn log_filter(wanted: Option<String>) -> (r: String)
    ensures
        r@ == filter_of(wanted.deep_view()),
{
    let mut filter = match wanted {
        Some(w) => w,
        None => QUIET.to_owned(),
    };
    if !text::has(filter.as_str(), "html5ever") {
        filter.append(",html5ever=error");
    }
    filter
}

// ── The first page ──────────────────────────────────────────────────────────

/// The page shown before anything is opened.
pub const WELCOME_PAGE: &'static str = "<h1>Welcome to esMail</h1><p>Connect to your IMAP account to start reading.</p>";

/// A page that exercises what matters for mail: text flow, tables, links,
/// forms, and scrolling past the fold.
pub const DEMO_PAGE: &'static str = "<!doctype html>\n\
<meta charset=\"utf-8\">\n\
<style>\n\
\x20 body { font: 16px/1.5 system-ui, sans-serif; margin: 2rem; color: #111; }\n\
\x20 table { border-collapse: collapse; } td, th { border: 1px solid #999; padding: .3rem .6rem; }\n\
\x20 .tall { height: 60vh; background: linear-gradient(#eee, #fff); }\n\
</style>\n\
<h1>esMail webview preview</h1>\n\
<p>Accented text to check character encoding: <b>&eacute;&agrave;&uuml;&ccedil;</b> &euro; &mdash; &ldquo;quoted&rdquo;.</p>\n\
<p><a href=\"https://example.com/clicked\">A link</a> &mdash; clicking it should emit LinkClicked and not navigate.</p>\n\
<table><tr><th>From</th><th>Subject</th></tr><tr><td>a@b.c</td><td>Hello</td></tr></table>\n\
<p>Type here to check keyboard input: <input type=\"text\" size=\"30\" placeholder=\"type me\"></p>\n\
<div class=\"tall\">Scroll down past this block to check scrolling.</div>\n\
<h2 id=\"bottom\">Bottom of the page</h2>\n\
";

/// Where the first page comes from.
#[derive(Debug, PartialEq)]
pub enum FirstPage {
    Welcome,
    Demo,
    /// Fetched from an address.
    Remote(String),
    /// A saved message, rendered as a live one is.
    Message(String),
    /// A file that holds a page.
    File(String),
}

/// What a [`FirstPage`] holds.
#[verifier::ext_equal]
pub enum FirstPageModel {
    Welcome,
    Demo,
    Remote(Text),
    Message(Text),
    File(Text),
}

impl View for FirstPage {
    type V = FirstPageModel;

    open spec fn view(&self) -> FirstPageModel {
        match self {
            FirstPage::Welcome => FirstPageModel::Welcome,
            FirstPage::Demo => FirstPageModel::Demo,
            FirstPage::Remote(target) => FirstPageModel::Remote(target@),
            FirstPage::Message(path) => FirstPageModel::Message(path@),
            FirstPage::File(path) => FirstPageModel::File(path@),
        }
    }
}

/// Where the first page comes from, by what is asked to be previewed.
pub open spec fn page_for(preview: Option<Text>) -> FirstPageModel {
    match preview {
        None => FirstPageModel::Welcome,
        Some(target) => if target == "demo"@ {
            FirstPageModel::Demo
        } else if text::starts_with(target, "http"@) {
            FirstPageModel::Remote(target)
        } else if text::ends_with(text::lower(target), ".eml"@) {
            FirstPageModel::Message(target)
        } else {
            FirstPageModel::File(target)
        },
    }
}

/// Where the first page comes from.
pub fn first_page(preview: Option<&str>) -> (r: FirstPage)
    ensures
        r@ == page_for(
            match preview {
                Some(target) => Some(target@),
                None => None,
            },
        ),
{
    match preview {
        None => FirstPage::Welcome,
        Some(target) => {
            if text::same(target, "demo") {
                FirstPage::Demo
            } else if text::begins_with(target, "http") {
                FirstPage::Remote(target.to_owned())
            } else if text::finishes_with(text::to_lower(target).as_str(), ".eml") {
                FirstPage::Message(target.to_owned())
            } else {
                FirstPage::File(target.to_owned())
            }
        },
    }
}

/// The page that exercises what matters for mail.
pub fn preview_demo_html() -> (r: String)
    ensures
        r@ == DEMO_PAGE@,
{
    DEMO_PAGE.to_owned()
}

/// The page shown where the first page could not be had.
pub open spec fn preview_failure_page(what: Text, target: Text, error: Text) -> Text {
    "<h1>could not "@ + what + " "@ + target + "</h1><p>"@ + error + "</p>"@
}

/// The page shown where the first page could not be had. `what` says what
/// could not be done.
pub fn preview_failure(what: &str, target: &str, error: &str) -> (r: String)
    ensures
        r@ == preview_failure_page(what@, target@, error@),
{
    let mut r = "<h1>could not ".to_owned();
    r.append(what);
    r.append(" ");
    r.append(target);
    r.append("</h1><p>");
    r.append(error);
    r.append("</p>");
    r
}

// ── Accounts ────────────────────────────────────────────────────────────────

impl AccountModel {
    /// An account whose first connect is in flight.
    pub open spec fn connecting(id: Text, label: Text, from_form: bool) -> AccountModel {
        AccountModel {
            id,
            label,
            state: ConnStateModel::Connecting,
            mailbox_rows: seq![],
            unread_counts: Map::empty(),
            pending_persist: from_form,
        }
    }
}

impl AccountView {
    /// An account whose first connect is in flight. One that came from the
    /// form is saved once it connects.
    pub fn connecting(id: String, label: String, from_form: bool) -> (r: Self)
        ensures
            r@ == AccountModel::connecting(id@, label@, from_form),
    {
        let r = AccountView {
            id,
            label,
            state: ConnState::Connecting,
            mailbox_rows: Vec::new(),
            unread_counts: UnreadCounts::new(),
            pending_persist: from_form,
        };
        assert(r.mailbox_rows.deep_view() =~= seq![]);
        r
    }
}

/// The mailbox that is watched for new mail.
pub open spec fn watched(chosen: Option<Text>) -> Text {
    match chosen {
        Some(mailbox) => mailbox,
        None => DEFAULT_WATCH_MAILBOX@,
    }
}

/// The mailbox that is watched for new mail.
pub fn watched_mailbox(chosen: Option<String>) -> (r: String)
    ensures
        r@ == watched(chosen.deep_view()),
{
    match chosen {
        Some(mailbox) => mailbox,
        None => DEFAULT_WATCH_MAILBOX.to_owned(),
    }
}

/// What is said at the start about a saved account.
pub open spec fn note_about(name: Text, google: bool, auth: Result<Option<String>, String>) -> Option<Text> {
    match auth {
        Ok(Some(note)) => Some(note@),
        Ok(None) => None,
        Err(reason) => if google {
            Some(name + ": "@ + reason@)
        } else {
            None
        },
    }
}

/// What is said at the start about a saved account: that its sign-in is about
/// to expire, or, for one that signs in with Google, why it is not connected.
/// `auth` is the notice about expiry if it connects, or the reason if it cannot.
pub fn startup_note(name: &str, google: bool, auth: Result<Option<String>, String>) -> (r: Option<String>)
    ensures
        r.deep_view() == note_about(name@, google, auth),
{
    match auth {
        Ok(note) => note,
        Err(reason) => {
            if google {
                let mut r = name.to_owned();
                r.append(": ");
                r.append(reason.as_str());
                Some(r)
            } else {
                None
            }
        },
    }
}

// ── The program ─────────────────────────────────────────────────────────────

impl AppModel {
    /// The program at its start: `accounts` are connecting, none is shown yet.
    pub open spec fn starting(
        accounts: Seq<AccountModel>,
        has_tray: bool,
        preview: bool,
    ) -> AppModel {
        AppModel {
            accounts,
            active: None,
            adding_account: false,
            status: "Ready"@,
            banners: seq![],
            next_banner_id: 0,
            selected_mailbox: "INBOX"@,
            headers: seq![],
            selected_uid: None,
            selected_uids: Set::empty(),
            select_anchor: None,
            pending_mark_seen: None,
            current_page: 1,
            total_pages: 1,
            current_attachments: seq![],
            current_sender: None,
            current_message_html: seq![],
            allow_remote: false,
            compose_windows: seq![],
            next_compose_id: 0,
            sending_from: Map::empty(),
            outbox_owner: Map::empty(),
            outbox_in_flight: Set::empty(),
            last_outbox_check: None,
            compose_last_autosave: Map::empty(),
            outbox_window: None,
            drafts_window: None,
            confirm_quit: false,
            next_req_id: 0,
            current_headers_req: 0,
            current_body_req: 0,
            search_query: seq![],
            search_results: None,
            search_origins: seq![],
            search_all_accounts: false,
            headers_stale: false,
            download_progress: None,
            preview,
            has_tray,
            exit_requested: false,
            geometry_saved_on_close: false,
            effects: seq![],
        }
    }

    /// The program as it is launched. A run that renders one page and exits has
    /// no tray icon, and one that previews a page has no accounts and nothing to
    /// say about any.
    pub open spec fn launched(
        accounts: Seq<AccountModel>,
        has_tray: bool,
        notes: Seq<Text>,
        preview: bool,
        screenshot: bool,
    ) -> AppModel {
        if preview {
            AppModel::starting(seq![], false, true)
        } else {
            AppModel::starting(accounts, has_tray && !screenshot, false).noted(notes)
        }
    }

    /// Several error notices.
    pub open spec fn noted(self, notes: Seq<Text>) -> AppModel
        decreases notes.len(),
    {
        if notes.len() == 0 {
            self
        } else {
            self.noted(notes.drop_last()).banner(notes.last())
        }
    }
}

/// Notices take one id each, and change nothing else that a start fixes.
proof fn lemma_noted_ids(s: AppModel, notes: Seq<Text>)
    requires
        s.next_banner_id + notes.len() <= u64::MAX,
    ensures
        s.noted(notes).next_banner_id == s.next_banner_id + notes.len(),
        s.noted(notes).next_req_id == s.next_req_id,
        s.noted(notes).next_compose_id == s.next_compose_id,
        s.noted(notes).has_tray == s.has_tray,
        s.noted(notes).preview == s.preview,
        s.noted(notes).active == s.active,
    decreases notes.len(),
{
    if notes.len() > 0 {
        lemma_noted_ids(s, notes.drop_last());
    }
}

impl EsMailApp {
    /// The program before anything has happened.
    fn start(accounts: Vec<AccountView>, has_tray: bool, preview: bool) -> (r: Self)
        ensures
            r@ == AppModel::starting(accounts.deep_view(), has_tray, preview),
    {
        let r = EsMailApp {
            accounts,
            active: None,
            adding_account: false,
            status: "Ready".to_owned(),
            banners: Vec::new(),
            next_banner_id: 0,
            selected_mailbox: "INBOX".to_owned(),
            headers: Vec::new(),
            selected_uid: None,
            selected_uids: BTreeSet::new(),
            select_anchor: None,
            pending_mark_seen: None,
            current_page: 1,
            total_pages: 1,
            current_attachments: Vec::new(),
            current_sender: None,
            current_message_html: String::new(),
            allow_remote: false,
            compose_windows: Vec::new(),
            next_compose_id: 0,
            sending_from: HashMap::new(),
            outbox_owner: HashMap::new(),
            outbox_in_flight: HashSet::new(),
            last_outbox_check: None,
            compose_last_autosave: HashMap::new(),
            outbox_window: None,
            drafts_window: None,
            confirm_quit: false,
            next_req_id: 0,
            current_headers_req: 0,
            current_body_req: 0,
            search_query: String::new(),
            search_results: None,
            search_origins: Vec::new(),
            search_all_accounts: false,
            headers_stale: false,
            download_progress: None,
            preview,
            has_tray,
            exit_requested: false,
            geometry_saved_on_close: false,
            effects: Vec::new(),
        };
        proof {
            assert(r.banners.deep_view() =~= seq![]);
            assert(r.headers.deep_view() =~= seq![]);
            assert(r.current_attachments.deep_view() =~= seq![]);
            assert(r.current_message_html@ =~= seq![]);
            assert(r.compose_windows.deep_view() =~= seq![]);
            assert(state::texts_of(r.sending_from@) =~= Map::empty());
            assert(r.search_query@ =~= seq![]);
            assert(r.search_origins.deep_view() =~= seq![]);
            assert(r.effects.deep_view() =~= seq![]);
        }
        r
    }

    /// The program at its start, with the saved accounts that can connect and
    /// what there is to say about the others. `preview` and `screenshot` say
    /// whether this run renders one page and exits: such a run has no tray icon,
    /// and a preview has no accounts.
    pub fn new(
        accounts: Vec<AccountView>,
        has_tray: bool,
        notes: Vec<String>,
        preview: bool,
        screenshot: bool,
    ) -> (r: Self)
        ensures
            r@ == AppModel::launched(
                accounts.deep_view(),
                has_tray,
                notes.deep_view(),
                preview,
                screenshot,
            ),
            (preview || screenshot) ==> !r.has_tray,
            preview ==> r.accounts@.len() == 0,
            r.preview == preview,
            r.active is None,
    {
        if preview {
            let none: Vec<AccountView> = Vec::new();
            assert(none.deep_view() =~= seq![]);
            return Self::start(none, false, true);
        }
        let mut r = Self::start(accounts, has_tray && starts_tray(preview, screenshot), false);
        let ghost start = r@;
        let ghost all = notes.deep_view();
        let n: usize = notes.len();
        let mut i: usize = 0;
        assert(all.take(0) =~= seq![]);
        while i < n
            invariant
                i <= n,
                n == notes@.len(),
                all == notes.deep_view(),
                start.next_banner_id == 0,
                start.next_req_id == 0,
                start.next_compose_id == 0,
                r@ == start.noted(all.take(i as int)),
            decreases n - i,
        {
            proof {
                lemma_noted_ids(start, all.take(i as int));
                assert(all.take(i + 1).drop_last() =~= all.take(i as int));
                assert(all.take(i + 1).last() == notes@[i as int]@);
            }
            r.push_banner(notes[i].clone());
            i += 1;
        }
        assert(all.take(all.len() as int) =~= all);
        proof {
            lemma_noted_ids(start, all);
        }
        r
    }
}

} // verus!
