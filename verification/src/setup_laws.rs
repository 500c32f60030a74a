//! How the program starts, what the account form describes, and what the folder
//! list tells.

use vstd::prelude::*;
use vstd::string::*;
use crate::folders;
use crate::folders::Light;
use crate::form;
use crate::form::{FormModel, ProviderSettings, SavedAccount, TlsMode};
use crate::mailboxes;
use crate::mailboxes::RowModel;
use crate::startup;
use crate::startup::{FirstPageModel, Launch};
use crate::state::{AccountModel, AppModel, ConnStateModel};
use crate::text;
use crate::text::Text;

verus! {

broadcast use vstd::string::group_string_axioms;

// ── Starting ────────────────────────────────────────────────────────────────

/// The program does what its arguments ask, wherever they stand: quitting comes
/// before purging, and purging before running.
pub proof fn law_the_arguments_say_what_to_do(before: Seq<Text>, after: Seq<Text>, development: bool)
    ensures
        startup::launch_of(before + seq!["--quit"@] + after, development) == Launch::Quit,
        ({
            let args = before + seq!["--purge-data"@] + after;
            !args.contains("--quit"@) ==> startup::launch_of(args, development) == Launch::PurgeData
        }),
        !before.contains("--quit"@) && !before.contains("--purge-data"@) ==> startup::launch_of(
            before,
            true,
        ) == Launch::Development && startup::launch_of(before, false) == Launch::Run,
{
    let quit = before + seq!["--quit"@] + after;
    assert(quit[before.len() as int] == "--quit"@);
    assert(quit.contains("--quit"@));
    let purge = before + seq!["--purge-data"@] + after;
    assert(purge[before.len() as int] == "--purge-data"@);
    assert(purge.contains("--purge-data"@));
}

/// A preview and a screenshot are runs for development; removing data fails exactly
/// if something could not be removed.
pub proof fn law_previews_and_screenshots_are_for_development(problems: nat)
    ensures
        startup::is_development(true, true) && startup::is_development(true, false)
            && startup::is_development(false, true) && !startup::is_development(false, false),
        startup::exit_code_after(0) == 0,
        problems > 0 ==> startup::exit_code_after(problems) == 1,
{
}

/// What is logged is what was asked for, or little; the HTML parser is heard only
/// by those who ask about it.
pub proof fn law_the_parser_is_quiet_unless_asked(wanted: Text)
    ensures
        text::contains(wanted, "html5ever"@) ==> startup::filter_of(Some(wanted)) == wanted,
        !text::contains(wanted, "html5ever"@) ==> startup::filter_of(Some(wanted)) == wanted
            + ",html5ever=error"@,
        startup::filter_of(None) == startup::filter_of(Some("warn,fontdb=error"@)),
{
}

/// The first page is the one that was asked for: the sample, a remote page, a
/// message in a file, or another file.
pub proof fn law_the_first_page_is_the_one_asked_for(target: Text)
    ensures
        startup::page_for(None) == FirstPageModel::Welcome,
        startup::page_for(Some("demo"@)) == FirstPageModel::Demo,
        target != "demo"@ ==> ({
            let remote = target.len() >= 4 && target.take(4) == "http"@;
            let message = target.len() >= 4 && text::lower(target.skip(target.len() - 4)) == ".eml"@;
            &&& remote ==> startup::page_for(Some(target)) == FirstPageModel::Remote(target)
            &&& !remote && message ==> startup::page_for(Some(target)) == FirstPageModel::Message(target)
            &&& !remote && !message ==> startup::page_for(Some(target)) == FirstPageModel::File(target)
        }),
{
    reveal_strlit("http");
    reveal_strlit(".eml");
    let low = text::lower(target);
    assert(low.len() == target.len());
    if target.len() >= 4 {
        assert(target.subrange(0, 4) =~= target.take(4));
        let n = target.len() - 4;
        assert(low.subrange(n, n + 4) =~= text::lower(target.skip(n)));
    }
}

/// A page that could not be had is replaced by one that says what and why.
pub proof fn law_a_missing_page_is_explained(what: Text, target: Text, error: Text)
    ensures
        startup::preview_failure_page(what, target, error) == "<h1>could not "@ + what + " "@ + target
            + "</h1><p>"@ + error + "</p>"@,
{
}

/// A new account is connecting and knows nothing yet; one from the form is saved
/// once it connects.
pub proof fn law_a_new_account_is_connecting(id: Text, label: Text, from_form: bool)
    ensures
        ({
            let a = AccountModel::connecting(id, label, from_form);
            &&& a.id == id && a.label == label
            &&& a.state == ConnStateModel::Connecting
            &&& a.mailbox_rows.len() == 0
            &&& a.unread_counts == Map::<Text, u32>::empty()
            &&& a.pending_persist == from_form
        }),
{
}

/// The watched mailbox is the one that was chosen, or the inbox.
pub proof fn law_the_inbox_is_watched_unless_chosen_otherwise(mailbox: Text)
    ensures
        startup::watched(Some(mailbox)) == mailbox,
        startup::watched(None) == "INBOX"@,
{
}

/// A sign-in that is about to expire is said as it stands; one with Google that
/// failed is said with the account's name; others start silently.
pub proof fn law_the_start_says_what_needs_attention(name: Text, google: bool, note: String)
    ensures
        startup::note_about(name, google, Ok(Some(note))) == Some(note@),
        startup::note_about(name, google, Ok(None)) is None,
        startup::note_about(name, true, Err(note)) == Some(name + ": "@ + note@),
        startup::note_about(name, false, Err(note)) is None,
{
}

/// The program starts with the accounts it is given and nothing open, chosen,
/// written or asked, and says each note once, in order. A preview starts without
/// accounts; neither a preview nor a screenshot has a tray icon.
pub proof fn law_the_program_starts_with_its_accounts(
    accounts: Seq<AccountModel>,
    has_tray: bool,
    notes: Seq<Text>,
    screenshot: bool,
    i: int,
)
    requires
        notes.len() < u64::MAX,
    ensures
        ({
            let s = AppModel::launched(accounts, has_tray, notes, false, screenshot);
            &&& s.accounts == accounts
            &&& s.has_tray == (has_tray && !screenshot)
            &&& s.banners.len() == notes.len()
            &&& 0 <= i < notes.len() ==> s.banners[i].message == notes[i] && s.banners[i].id == i + 1
            &&& !s.preview
            &&& quiet(s)
        }),
        ({
            let p = AppModel::launched(accounts, has_tray, notes, true, screenshot);
            &&& p.accounts.len() == 0
            &&& !p.has_tray
            &&& p.banners.len() == 0
            &&& p.preview
            &&& quiet(p)
        }),
{
    let first = AppModel::starting(accounts, has_tray && !screenshot, false);
    lemma_noted(first, notes);
}

/// Whether nothing is open, chosen, written, asked or pending.
pub open spec fn quiet(s: AppModel) -> bool {
    &&& s.active is None
    &&& !s.adding_account
    &&& s.status == "Ready"@
    &&& s.selected_mailbox == "INBOX"@
    &&& s.headers.len() == 0
    &&& s.selected_uid is None
    &&& s.selected_uids == Set::<u32>::empty()
    &&& s.select_anchor is None
    &&& s.pending_mark_seen is None
    &&& s.current_page == 1 && s.total_pages == 1
    &&& s.current_attachments.len() == 0
    &&& s.current_sender is None
    &&& s.current_message_html.len() == 0
    &&& !s.allow_remote
    &&& s.compose_windows.len() == 0
    &&& s.outbox_window is None && s.drafts_window is None
    &&& !s.confirm_quit
    &&& s.search_query.len() == 0 && s.search_results is None && s.search_origins.len() == 0
    &&& !s.search_all_accounts
    &&& s.download_progress is None
    &&& !s.exit_requested && !s.geometry_saved_on_close
    &&& s.effects.len() == 0
}

proof fn lemma_noted(s: AppModel, notes: Seq<Text>)
    requires
        s.banners.len() == 0,
        s.next_banner_id == 0,
        notes.len() < u64::MAX,
    ensures
        ({
            let t = s.noted(notes);
            &&& t.banners.len() == notes.len()
            &&& t.next_banner_id == notes.len()
            &&& forall|i: int|
                0 <= i < notes.len() ==> (#[trigger] t.banners[i]).message == notes[i] && t.banners[i].id == i
                    + 1
            &&& t == (AppModel { banners: t.banners, next_banner_id: t.next_banner_id, ..s })
        }),
    decreases notes.len(),
{
    if notes.len() > 0 {
        lemma_noted(s, notes.drop_last());
        let before = s.noted(notes.drop_last());
        let t = s.noted(notes);
        assert forall|i: int| 0 <= i < notes.len() implies (#[trigger] t.banners[i]).message == notes[i]
            && t.banners[i].id == i + 1 by {
            if i < notes.len() - 1 {
                assert(t.banners[i] == before.banners[i]);
                assert(notes.drop_last()[i] == notes[i]);
            }
        }
    }
}

// ── The account form ────────────────────────────────────────────────────────

/// The form starts with Gmail's servers and nothing of the user's.
pub proof fn law_the_form_starts_with_gmail(google_client: bool)
    ensures
        ({
            let f = FormModel::first_run(google_client);
            &&& f.host == "imap.gmail.com"@ && f.port == "993"@
            &&& f.smtp_host == "smtp.gmail.com"@ && f.smtp_port == "465"@
            &&& f.smtp_tls == TlsMode::Ssl
            &&& f.use_oauth == google_client
            &&& f.username.len() == 0 && f.password.len() == 0 && f.wizard_email.len() == 0
        }),
{
}

/// The form shows the first saved account if there is one; it offers to sign in
/// with Google exactly for Gmail's server, white space around it aside.
pub proof fn law_the_form_shows_the_first_account(
    account: SavedAccount,
    password: Option<Text>,
    google_client: bool,
    f: FormModel,
)
    ensures
        FormModel::shown_first(Some(account), password, google_client) == FormModel::from_account(
            account,
            password,
        ),
        FormModel::shown_first(None, password, google_client) == FormModel::first_run(google_client),
        f.is_gmail() <==> text::trim(f.host) == "imap.gmail.com"@,
{
}

/// A form filled in from a saved account shows that account, with its password
/// where it is known.
pub proof fn law_the_form_shows_a_saved_account(account: SavedAccount, password: Text)
    ensures
        ({
            let f = FormModel::from_account(account, Some(password));
            let g = FormModel::from_account(account, None);
            &&& f.host == account.imap_host@ && f.smtp_host == account.smtp_host@
            &&& form::value_of(f.port) == account.imap_port
            &&& form::value_of(f.smtp_port) == account.smtp_port
            &&& f.username == account.username@
            &&& f.password == password
            &&& f.smtp_tls == account.smtp_tls
            &&& f.use_oauth == account.google
            &&& f.wizard_email.len() == 0
            &&& g == (FormModel { password: seq![], ..f })
        }),
{
    form::lemma_decimal_is_read(account.imap_port as nat);
    form::lemma_decimal_is_read(account.smtp_port as nat);
}

/// What a provider is known to use goes into a form that nobody touched: its
/// servers and their ports, the address as user name where none was typed. Only
/// Gmail signs in with Google. The password and the rest stay.
pub proof fn law_known_servers_are_filled_in(f: FormModel, known: ProviderSettings, google_client: bool)
    requires
        f.host.len() == 0 || (f.host == "imap.gmail.com"@ && f.port == "993"@),
    ensures
        ({
            let g = f.provider_applied(known, google_client);
            &&& g.host == known.imap_host@ && g.smtp_host == known.smtp_host@
            &&& form::value_of(g.port) == known.imap_port
            &&& form::value_of(g.smtp_port) == known.smtp_port
            &&& f.username.len() == 0 ==> g.username == f.wizard_email
            &&& f.username.len() > 0 ==> g.username == f.username
            &&& g.password == f.password && g.smtp_tls == f.smtp_tls && g.wizard_email == f.wizard_email
            &&& known.imap_host@ != "imap.gmail.com"@ ==> !g.use_oauth
            &&& known.imap_host@ == "imap.gmail.com"@ && f.host.len() == 0 ==> g.use_oauth
                == google_client
            &&& known.imap_host@ == "imap.gmail.com"@ && f.host.len() > 0 ==> g.use_oauth == f.use_oauth
        }),
{
    reveal_strlit("");
    if f.host.len() == 0 {
        assert(f.host =~= ""@);
    }
    form::lemma_decimal_is_read(known.imap_port as nat);
    form::lemma_decimal_is_read(known.smtp_port as nat);
}

/// A port is read from its digits, with or without a plus sign, and from nothing
/// else; one that is too large is none.
pub proof fn law_a_port_is_read_from_its_digits(n: nat, s: Text)
    ensures
        n <= 65535 ==> form::port_of(text::decimal(n)) == Some(n as u16),
        n <= 65535 ==> form::port_of(seq!['+'] + text::decimal(n)) == Some(n as u16),
        n > 65535 ==> form::port_of(text::decimal(n)) is None,
        form::port_of(seq![]) is None,
        (exists|i: int| 0 < i < s.len() && !('0' <= #[trigger] s[i] <= '9')) ==> form::port_of(s) is None,
{
    form::lemma_decimal_is_read(n);
    let d = text::decimal(n);
    assert(form::is_digit(d[0]));
    let plus = seq!['+'] + d;
    assert(plus[0] == '+');
    assert(plus.skip(1) =~= d);
    if exists|i: int| 0 < i < s.len() && !('0' <= #[trigger] s[i] <= '9') {
        let i = choose|i: int| 0 < i < s.len() && !('0' <= #[trigger] s[i] <= '9');
        assert(!form::is_digit(s[i]));
        if s[0] == '+' {
            assert(s.skip(1)[i - 1] == s[i]);
        }
    }
}

/// The account that a form describes is what was typed, white space around it
/// aside; it signs in with Google only if that was chosen and its server is
/// Gmail's. There is none exactly if one of the ports is none.
pub proof fn law_the_form_describes_what_was_typed(f: FormModel)
    ensures
        f.entered() is Some <==> form::port_of(text::trim(f.port)) is Some && form::port_of(
            text::trim(f.smtp_port),
        ) is Some,
        f.entered() matches Some(a) ==> {
            &&& a.imap_host == text::trim(f.host)
            &&& Some(a.imap_port) == form::port_of(text::trim(f.port))
            &&& a.username == text::trim(f.username)
            &&& a.smtp_host == text::trim(f.smtp_host)
            &&& Some(a.smtp_port) == form::port_of(text::trim(f.smtp_port))
            &&& a.smtp_tls == f.smtp_tls
            &&& a.google == (f.use_oauth && text::trim(f.host) == "imap.gmail.com"@)
            &&& a.id() == text::trim(f.username) + "@"@ + text::trim(f.host)
        },
{
}

// ── The folder list ─────────────────────────────────────────────────────────

/// A row counts the unread messages of its own mailbox, and nothing where it has
/// none or it was not counted.
pub proof fn law_a_row_counts_its_own_mailbox(row: RowModel, counts: Map<Text, u32>, name: Text)
    ensures
        row.full_name == Some(name) && counts.dom().contains(name) ==> folders::own_unread(row, counts)
            == counts[name],
        row.full_name == Some(name) && !counts.dom().contains(name) ==> folders::own_unread(row, counts)
            == 0,
        row.full_name is None ==> folders::own_unread(row, counts) == 0,
{
}

/// Unread messages of a stretch of rows are those of its two parts, down to the
/// single row.
pub proof fn law_unread_messages_add_up(rows: Seq<RowModel>, counts: Map<Text, u32>, a: int, b: int, c: int)
    requires
        a <= b <= c,
    ensures
        folders::unread_between(rows, counts, a, c) == folders::unread_between(rows, counts, a, b)
            + folders::unread_between(rows, counts, b, c),
        folders::unread_between(rows, counts, a, a) == 0,
        folders::unread_between(rows, counts, a, a + 1) == folders::own_unread(rows[a], counts),
    decreases c - b,
{
    assert(folders::unread_between(rows, counts, a, a) == 0);
    assert(folders::unread_between(rows, counts, b, b) == 0);
    if b < c {
        law_unread_messages_add_up(rows, counts, a, b, c - 1);
    }
}

/// An open folder tells of its own messages only; a folded one of those below it
/// too, down to the next row that is not deeper.
pub proof fn law_an_open_folder_tells_of_its_own(
    rows: Seq<RowModel>,
    counts: Map<Text, u32>,
    i: int,
    end: int,
    folded: Seq<Text>,
)
    requires
        0 <= i < end <= rows.len(),
        forall|k: int| i < k < end ==> (#[trigger] rows[k]).depth > rows[i].depth,
        end < rows.len() ==> rows[end].depth <= rows[i].depth,
    ensures
        !rows[i].has_children || !folded.contains(rows[i].key) ==> folders::shown_unread(
            rows,
            counts,
            i,
            folded,
        ) == folders::own_unread(rows[i], counts),
        rows[i].has_children && folded.contains(rows[i].key) ==> folders::shown_unread(
            rows,
            counts,
            i,
            folded,
        ) == folders::unread_between(rows, counts, i, end),
{
    lemma_end(rows, i, i + 1, end);
    law_unread_messages_add_up(rows, counts, i, i + 1, end);
}

proof fn lemma_end(rows: Seq<RowModel>, i: int, from: int, end: int)
    requires
        0 <= i < from <= end <= rows.len(),
        forall|k: int| i < k < end ==> (#[trigger] rows[k]).depth > rows[i].depth,
        end < rows.len() ==> rows[end].depth <= rows[i].depth,
    ensures
        mailboxes::subtree_end(rows, i, from) == end,
    decreases end - from,
{
    if from < end {
        assert(rows[from].depth > rows[i].depth);
        lemma_end(rows, i, from + 1, end);
    }
}

/// An account's total is that of its inboxes: rows without one add nothing, and a
/// row counts exactly if its mailbox is called `INBOX`, in any case.
pub proof fn law_an_accounts_total_is_its_inbox(
    a: Seq<RowModel>,
    b: Seq<RowModel>,
    row: RowModel,
    counts: Map<Text, u32>,
    name: Text,
)
    ensures
        folders::inbox_unread(a + b, counts) == folders::inbox_unread(a, counts) + folders::inbox_unread(
            b,
            counts,
        ),
        row.full_name == Some(name) && text::lower(name) == "inbox"@ ==> folders::inbox_unread(
            seq![row],
            counts,
        ) == folders::own_unread(row, counts),
        row.full_name == Some(name) && text::lower(name) != "inbox"@ ==> folders::inbox_unread(
            seq![row],
            counts,
        ) == 0,
        row.full_name is None ==> folders::inbox_unread(seq![row], counts) == 0,
        folders::inbox_unread(seq![], counts) == 0,
    decreases b.len(),
{
    reveal_strlit("INBOX");
    reveal_strlit("inbox");
    assert(text::lower("INBOX"@) =~= "inbox"@);
    let one = seq![row];
    assert(one.drop_last() =~= Seq::<RowModel>::empty());
    assert(folders::inbox_unread(one.drop_last(), counts) == 0);
    assert(one.last() == row);
    if b.len() == 0 {
        assert(a + b =~= a);
    } else {
        law_an_accounts_total_is_its_inbox(a, b.drop_last(), row, counts, name);
        assert((a + b).drop_last() =~= a + b.drop_last());
        assert((a + b).last() == b.last());
    }
}

/// The total over all accounts is the sum of their totals.
pub proof fn law_the_total_is_that_of_all_accounts(a: Seq<AccountModel>, b: Seq<AccountModel>, one: AccountModel)
    ensures
        folders::all_unread(a + b) == folders::all_unread(a) + folders::all_unread(b),
        folders::all_unread(seq![one]) == folders::inbox_unread(one.mailbox_rows, one.unread_counts),
        folders::all_unread(seq![]) == 0,
    decreases b.len(),
{
    let single = seq![one];
    assert(single.drop_last() =~= Seq::<AccountModel>::empty());
    assert(folders::all_unread(single.drop_last()) == 0);
    assert(single.last() == one);
    if b.len() == 0 {
        assert(a + b =~= a);
    } else {
        law_the_total_is_that_of_all_accounts(a, b.drop_last(), one);
        assert((a + b).drop_last() =~= a + b.drop_last());
        assert((a + b).last() == b.last());
    }
}

/// A number of unread messages is told as long as it fits; a larger one is none.
pub proof fn law_a_number_that_fits_is_told(n: nat)
    ensures
        n <= 0xffff_ffff ==> folders::fitting(n) == Some(n as u32),
        n > 0xffff_ffff ==> folders::fitting(n) is None,
{
}

/// A folder is shown by its label, with the number of unread messages behind it
/// where there are any; it is the chosen one exactly if its account and its
/// mailbox are those on screen.
pub proof fn law_a_folder_shows_its_label_and_number(s: AppModel, view: AccountModel, i: int, folded: Seq<Text>)
    requires
        0 <= i < view.mailbox_rows.len(),
    ensures
        ({
            let row = view.mailbox_rows[i];
            let unread = folders::shown_unread(view.mailbox_rows, view.unread_counts, i, folded);
            &&& unread > u32::MAX <==> s.folder_line(view, i, folded) is None
            &&& s.folder_line(view, i, folded) matches Some(line) ==> {
                &&& unread == 0 ==> line.text == row.label
                &&& unread > 0 ==> line.text == row.label + "  ("@ + text::decimal(unread) + ")"@
                &&& line.folded == (row.has_children && folded.contains(row.key))
                &&& line.selected == (s.active == Some(view.id) && row.full_name == Some(
                    s.selected_mailbox,
                ))
            }
        }),
{
}

/// The light is green while connected, red after a failure and amber on the way;
/// what is said beside it is what is being done, or the failure as it stands.
pub proof fn law_the_light_tells_the_connection(error: Text)
    ensures
        folders::light_of(ConnStateModel::Connected) == Light::Green,
        folders::light_of(ConnStateModel::Connecting) == Light::Amber,
        folders::light_of(ConnStateModel::Disconnected) == Light::Amber,
        folders::light_of(ConnStateModel::Failed(error)) == Light::Red,
        folders::connection_note(ConnStateModel::Connected) is None,
        folders::connection_note(ConnStateModel::Connecting) == Some("Connecting…"@),
        folders::connection_note(ConnStateModel::Disconnected) == Some("Reconnecting…"@),
        folders::connection_note(ConnStateModel::Failed(error)) == Some(error),
{
}

/// The folders that an account has folded are kept in the order they were saved.
pub proof fn law_folded_folders_keep_their_order(a: Seq<Text>, b: Seq<Text>, account: Text, key: Text)
    ensures
        folders::folded_of(a + b, account) == folders::folded_of(a, account) + folders::folded_of(
            b,
            account,
        ),
        folders::folded_of(seq![account + "\t"@ + key], account) == seq![key],
        folders::saved_key(account, key) == account + "\t"@ + key,
    decreases b.len(),
{
    if b.len() == 0 {
        assert(a + b =~= a);
        assert(folders::folded_of(a, account) + folders::folded_of(b, account) =~= folders::folded_of(
            a,
            account,
        ));
    } else {
        law_folded_folders_keep_their_order(a, b.drop_last(), account, key);
        assert((a + b).drop_last() =~= a + b.drop_last());
        assert((a + b).last() == b.last());
        assert(folders::folded_of(a + b, account) =~= folders::folded_of(a, account)
            + folders::folded_of(b, account));
    }
    let prefix = account + "\t"@;
    let full = account + "\t"@ + key;
    let one = seq![full];
    assert(one.drop_last() =~= Seq::<Text>::empty());
    assert(one.last() == full);
    assert(full.subrange(0, prefix.len() as int) =~= prefix);
    assert(text::starts_with(full, prefix));
    assert(full.skip(prefix.len() as int) =~= key);
    assert(folders::folded_of(one.drop_last(), account) =~= Seq::<Text>::empty());
    assert(folders::folded_of(one, account) =~= seq![key]);
}

} // verus!
