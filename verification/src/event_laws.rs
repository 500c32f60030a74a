//! What each event of an account, the cache or the store does to the program: what
//! is shown, what is counted, what is said, and what is asked for next.

use vstd::prelude::*;
use vstd::string::*;
use crate::app_changes;
use crate::app_events;
use crate::command_laws;
use crate::db::{DbCommandModel, DbEventModel, SearchHitModel, SyncPlan};
use crate::events::{ImapCommandModel, ImapEventModel};
use crate::imap::{AttachmentModel, MailHeaderModel, MailboxInfoModel, MailboxState};
use crate::mailboxes;
use crate::selection;
use crate::state::{AccountModel, AppModel, BannerModel, ConnStateModel, EffectModel};
use crate::text;
use crate::text::Text;

verus! {

broadcast use vstd::string::group_string_axioms;

// ── Notices ─────────────────────────────────────────────────────────────────

/// The program with one more notice, under an id that no earlier one had.
pub open spec fn notified(s: AppModel, message: Text) -> AppModel {
    let id = (s.next_banner_id + 1) as u64;
    AppModel {
        banners: s.banners.push(BannerModel { id, message }),
        next_banner_id: id,
        ..s
    }
}

/// A notice about an account names it where there are several.
pub open spec fn about(s: AppModel, at: int, message: Text) -> Text {
    if s.accounts.len() > 1 {
        s.accounts[at].label + ": "@ + message
    } else {
        message
    }
}

/// A notice is shown under what was said, behind the earlier ones, and nothing
/// else changes; one about an account names it where there are several.
pub proof fn law_notices_say_what_happened(s: AppModel, account: Text, at: int, message: Text)
    requires
        command_laws::lives_at(s, account, at),
    ensures
        s.banner(message) == notified(s, message),
        s.account_banner(account, message) == notified(s, about(s, at, message)),
{
    command_laws::lemma_lives(s, account, at);
}

/// A notice that is dismissed goes, and the others stay in their order.
pub proof fn law_a_dismissed_notice_goes(banners: Seq<BannerModel>, id: u64)
    ensures
        crate::app::without_banner(banners, id) == banners.filter(|b: BannerModel| b.id != id),
    decreases banners.len(),
{
    reveal(Seq::filter);
    if banners.len() > 0 {
        law_a_dismissed_notice_goes(banners.drop_last(), id);
    }
}

// ── Connections ─────────────────────────────────────────────────────────────

/// The accounts with one of them in another state.
pub open spec fn with_state(s: AppModel, at: int, state: ConnStateModel) -> Seq<AccountModel> {
    s.accounts.update(at, AccountModel { state, ..s.accounts[at] })
}

/// An account that connects is connected, and asked for its mailboxes. One from
/// the form is saved now, and only now, and the form closes. The first account
/// to connect is shown, with its inbox; one that is shown already lists its open
/// mailbox anew; any other changes nothing on screen.
pub proof fn law_connecting_lists_the_mailboxes(s: AppModel, account: Text, at: int)
    requires
        command_laws::lives_at(s, account, at),
        s.next_req_id < u64::MAX,
    ensures
        ({
            let t = s.on_imap(account, ImapEventModel::Connected);
            let new = s.accounts[at].pending_persist;
            let saved = if new {
                s.effects.push(EffectModel::PersistAccount(account))
            } else {
                s.effects
            };
            let asked = saved.push(
                EffectModel::Imap { account, cmd: ImapCommandModel::FetchMailboxes },
            );
            &&& t.accounts == s.accounts.update(
                at,
                AccountModel {
                    state: ConnStateModel::Connected,
                    pending_persist: false,
                    ..s.accounts[at]
                },
            )
            &&& t.adding_account == (s.adding_account && !new)
            &&& t.status == "Connected: "@ + s.accounts[at].label
            &&& s.active is None ==> t.active == Some(account) && t.selected_mailbox == "INBOX"@
                && t.effects == asked.push(EffectModel::ShowPage(seq![])).push(
                EffectModel::Imap {
                    account,
                    cmd: ImapCommandModel::FetchHeaders {
                        mailbox: "INBOX"@,
                        page: 1,
                        req_id: t.current_headers_req,
                    },
                },
            )
            &&& s.active == Some(account) ==> t.active == s.active && t.selected_mailbox
                == s.selected_mailbox && t.headers == s.headers && t.effects == asked.push(
                EffectModel::Imap {
                    account,
                    cmd: ImapCommandModel::FetchHeaders {
                        mailbox: s.selected_mailbox,
                        page: 1,
                        req_id: t.current_headers_req,
                    },
                },
            )
            &&& s.active is Some && s.active != Some(account) ==> t == (AppModel {
                accounts: t.accounts,
                adding_account: t.adding_account,
                status: t.status,
                effects: asked,
                ..s
            })
            &&& s.active is None || s.active == Some(account) ==> t.current_headers_req == s.next_req_id
                + 1
        }),
{
    command_laws::lemma_lives(s, account, at);
    let view = AccountModel {
        state: ConnStateModel::Connected,
        pending_persist: false,
        ..s.accounts[at]
    };
    crate::app::lemma_account_index_update(s.accounts, at, view, account);
    let a = s.with_account_at(at, view);
    let b = if s.accounts[at].pending_persist {
        (AppModel { adding_account: false, ..a }).emit(EffectModel::PersistAccount(account))
    } else {
        a
    };
    let c = b.with_status("Connected: "@ + s.accounts[at].label).imap_to(
        account,
        ImapCommandModel::FetchMailboxes,
    );
    assert(command_laws::lives_at(c, account, at)) by {
        assert forall|i: int| 0 <= i < at implies (#[trigger] c.accounts[i]).id != account by {
            assert(c.accounts[i] == s.accounts[i]);
        }
    }
    if s.active is None {
        command_laws::law_opening_a_mailbox_asks_for_its_first_page(c, account, at, "INBOX"@);
        reveal(AppModel::activated);
    } else if s.active == Some(account) {
        command_laws::lemma_lives(c.with_req_id(), account, at);
    }
}

/// An account that loses its connection is reconnecting, and says so if it is the
/// one shown; nothing else changes.
pub proof fn law_losing_the_connection_is_said(s: AppModel, account: Text, at: int)
    requires
        command_laws::lives_at(s, account, at),
    ensures
        s.on_imap(account, ImapEventModel::Disconnected) == (AppModel {
            accounts: with_state(s, at, ConnStateModel::Disconnected),
            status: if s.active == Some(account) {
                "Connection lost, reconnecting..."@
            } else {
                s.status
            },
            ..s
        }),
{
    command_laws::lemma_lives(s, account, at);
}

/// An error is shown. It is the end of a connection that is being made or made
/// again, and leaves one that stands alone.
pub proof fn law_errors_are_shown(s: AppModel, account: Text, at: int, error: Text)
    requires
        command_laws::lives_at(s, account, at),
    ensures
        ({
            let ends = s.accounts[at].state is Connecting || s.accounts[at].state is Disconnected;
            s.on_imap(account, ImapEventModel::Error(error)) == (AppModel {
                accounts: if ends {
                    with_state(s, at, ConnStateModel::Failed(error))
                } else {
                    s.accounts
                },
                ..notified(s, about(s, at, "IMAP error: "@ + error))
            })
        }),
{
    command_laws::lemma_lives(s, account, at);
    let view = AccountModel { state: ConnStateModel::Failed(error), ..s.accounts[at] };
    crate::app::lemma_account_index_update(s.accounts, at, view, account);
}

/// Each failure of a command is shown in its own words, and changes nothing else;
/// what happens in the background is not shown.
pub proof fn law_failures_are_shown_in_their_own_words(
    s: AppModel,
    account: Text,
    at: int,
    mailbox: Text,
    uid: u32,
    error: Text,
    req_id: u64,
    state: MailboxState,
)
    requires
        command_laws::lives_at(s, account, at),
    ensures
        s.on_imap(account, ImapEventModel::ExportFailed { error }) == notified(
            s,
            about(s, at, "Could not export message: "@ + error),
        ),
        s.on_imap(account, ImapEventModel::AppendFailed { mailbox, error }) == notified(
            s,
            about(s, at, "Sent, but could not save a copy to "@ + mailbox + ": "@ + error),
        ),
        s.on_imap(account, ImapEventModel::FlagsUpdateFailed { mailbox, uid, error, req_id })
            == notified(
            s,
            about(
                s,
                at,
                "Could not update flags on message "@ + text::decimal(uid as nat) + ": "@ + error,
            ),
        ),
        s.on_imap(account, ImapEventModel::MoveFailed { mailbox, uid, error, req_id }) == notified(
            s,
            about(s, at, "Could not move message "@ + text::decimal(uid as nat) + ": "@ + error),
        ),
        s.on_imap(account, ImapEventModel::PollFailed(error)) == s,
        s.on_imap(account, ImapEventModel::Appended { mailbox }) == s,
        s.on_imap(account, ImapEventModel::MailboxPolled { mailbox, state }) == s,
{
    command_laws::lemma_lives(s, account, at);
}

/// A message that was written to a file is said to have been, under its path; the
/// progress of a download is that of the account shown, and its end is said.
pub proof fn law_progress_is_said(s: AppModel, account: Text, at: int, path: Text, current: u32, total: u32)
    requires
        command_laws::lives_at(s, account, at),
    ensures
        s.on_imap(account, ImapEventModel::Exported { path }) == (AppModel {
            status: "Exported message to "@ + path,
            ..s
        }),
        ({
            let t = s.on_imap(account, ImapEventModel::DownloadProgress { current, total });
            &&& s.active != Some(account) ==> t == s
            &&& s.active == Some(account) && current != total ==> t == (AppModel {
                download_progress: Some((current, total)),
                ..s
            })
            &&& s.active == Some(account) && current == total ==> t == (AppModel {
                download_progress: None,
                status: "Download complete"@,
                ..s
            })
        }),
{
    command_laws::lemma_lives(s, account, at);
}

// ── Mailboxes and headers ───────────────────────────────────────────────────

/// The mailboxes of an account become its folder rows, and every one of them is
/// asked how many unread messages it has.
pub proof fn law_mailboxes_are_listed_and_counted(
    s: AppModel,
    account: Text,
    at: int,
    list: Seq<MailboxInfoModel>,
)
    requires
        command_laws::lives_at(s, account, at),
    ensures
        ({
            let t = s.on_imap(account, ImapEventModel::Mailboxes(list));
            &&& t.accounts == s.accounts.update(
                at,
                AccountModel {
                    mailbox_rows: mailboxes::rows_of(mailboxes::tree_of(list), 0, None),
                    ..s.accounts[at]
                },
            )
            &&& t == (AppModel { accounts: t.accounts, effects: t.effects, ..s })
            &&& t.effects == s.effects.push(
                EffectModel::Imap {
                    account,
                    cmd: ImapCommandModel::FetchUnreadCounts {
                        mailboxes: list.map_values(|mb: MailboxInfoModel| mb.name),
                    },
                },
            )
        }),
{
    command_laws::lemma_lives(s, account, at);
    let view = AccountModel {
        mailbox_rows: mailboxes::rows_of(mailboxes::tree_of(list), 0, None),
        ..s.accounts[at]
    };
    crate::app::lemma_account_index_update(s.accounts, at, view, account);
    assert(app_events::names_of(list) =~= list.map_values(|mb: MailboxInfoModel| mb.name));
}

/// The counts an account reports become its counts, and no other account's.
pub proof fn law_counts_are_those_reported(s: AppModel, account: Text, at: int, counts: Map<Text, u32>)
    requires
        command_laws::lives_at(s, account, at),
    ensures
        s.on_imap(account, ImapEventModel::UnreadCounts(counts)) == (AppModel {
            accounts: s.accounts.update(
                at,
                AccountModel { unread_counts: counts, ..s.accounts[at] },
            ),
            ..s
        }),
{
    command_laws::lemma_lives(s, account, at);
}

/// New mail has the selectable mailboxes of its account counted again; an account
/// without any is not asked.
pub proof fn law_new_mail_is_counted(
    s: AppModel,
    account: Text,
    at: int,
    mailbox: Text,
    headers: Seq<MailHeaderModel>,
)
    requires
        command_laws::lives_at(s, account, at),
    ensures
        ({
            let t = s.on_imap(account, ImapEventModel::NewHeaders { mailbox, headers });
            let rows = s.accounts[at].mailbox_rows;
            let selectable = exists|i: int| 0 <= i < rows.len() && (#[trigger] rows[i]).full_name is Some;
            &&& !selectable ==> t == s
            &&& selectable ==> t == (AppModel { effects: t.effects, ..s }) && t.effects.len()
                == s.effects.len() + 1 && t.effects.drop_last() == s.effects && (
            t.effects.last() matches EffectModel::Imap {
                account: a,
                cmd: ImapCommandModel::FetchUnreadCounts { mailboxes: names },
            } && a == account && forall|name: Text|
                #[trigger] names.contains(name) <==> exists|i: int|
                    0 <= i < rows.len() && (#[trigger] rows[i]).full_name == Some(name))
        }),
{
    command_laws::lemma_lives(s, account, at);
    let rows = s.accounts[at].mailbox_rows;
    lemma_row_names(rows);
    let names = app_events::row_names(rows);
    let t = s.on_imap(account, ImapEventModel::NewHeaders { mailbox, headers });
    if names.len() > 0 {
        assert(names.contains(names[0]));
        let i = choose|i: int| 0 <= i < rows.len() && (#[trigger] rows[i]).full_name == Some(names[0]);
        assert(rows[i].full_name is Some);
        assert(t.effects.drop_last() =~= s.effects);
    } else if exists|i: int| 0 <= i < rows.len() && (#[trigger] rows[i]).full_name is Some {
        let i = choose|i: int| 0 <= i < rows.len() && (#[trigger] rows[i]).full_name is Some;
        assert(rows[i].full_name == Some(rows[i].full_name->0));
        assert(names.contains(rows[i].full_name->0));
    }
}

proof fn lemma_row_names(rows: Seq<mailboxes::RowModel>)
    ensures
        forall|name: Text| #[trigger]
            app_events::row_names(rows).contains(name) <==> exists|i: int|
                0 <= i < rows.len() && (#[trigger] rows[i]).full_name == Some(name),
    decreases rows.len(),
{
    if rows.len() > 0 {
        let few = rows.drop_last();
        lemma_row_names(few);
        let names = app_events::row_names(rows);
        let before = app_events::row_names(few);
        assert forall|name: Text| #[trigger] names.contains(name) <==> exists|i: int|
            0 <= i < rows.len() && (#[trigger] rows[i]).full_name == Some(name) by {
            if names.contains(name) {
                let k = choose|k: int| 0 <= k < names.len() && names[k] == name;
                if k < before.len() {
                    assert(before[k] == name);
                    assert(before.contains(name));
                    let i = choose|i: int|
                        0 <= i < few.len() && (#[trigger] few[i]).full_name == Some(name);
                    assert(rows[i].full_name == Some(name));
                } else {
                    assert(rows[rows.len() - 1].full_name == Some(name));
                }
            }
            if exists|i: int| 0 <= i < rows.len() && (#[trigger] rows[i]).full_name == Some(name) {
                let i = choose|i: int|
                    0 <= i < rows.len() && (#[trigger] rows[i]).full_name == Some(name);
                if i < few.len() {
                    assert(few[i].full_name == Some(name));
                    assert(before.contains(name));
                    let k = choose|k: int| 0 <= k < before.len() && before[k] == name;
                    assert(names[k] == name);
                } else {
                    assert(names.last() == name);
                    assert(names[names.len() - 1] == name);
                }
            }
        }
    }
}

/// A page of headers that is wanted is listed as it came, under its number; the
/// cache is told what the server said of the mailbox, wanted or not.
pub proof fn law_a_page_that_is_wanted_is_listed(
    s: AppModel,
    account: Text,
    at: int,
    mailbox: Text,
    headers: Seq<MailHeaderModel>,
    page: u32,
    total_pages: u32,
    req_id: u64,
    mailbox_state: MailboxState,
)
    requires
        command_laws::lives_at(s, account, at),
    ensures
        ({
            let t = s.on_imap(
                account,
                ImapEventModel::Headers { mailbox, headers, page, total_pages, req_id, mailbox_state },
            );
            let wanted = s.active == Some(account) && s.selected_mailbox == mailbox
                && s.current_headers_req == req_id;
            let told = s.effects.push(
                EffectModel::Db(
                    DbCommandModel::ReportMailboxState {
                        account_id: account,
                        mailbox,
                        uid_validity: mailbox_state.uid_validity,
                        uid_next: mailbox_state.uid_next,
                    },
                ),
            );
            &&& wanted ==> t == (AppModel {
                headers,
                current_page: page,
                total_pages,
                status: "Page "@ + text::decimal(page as nat) + " of "@ + text::decimal(
                    total_pages as nat,
                ),
                effects: told,
                ..s
            })
            &&& !wanted ==> t == (AppModel { effects: told, ..s })
        }),
{
    command_laws::lemma_lives(s, account, at);
}

/// What was fetched for the cache is handed to it as it came, for its own account
/// and mailbox.
pub proof fn law_fetched_mail_is_cached(
    s: AppModel,
    account: Text,
    at: int,
    mailbox: Text,
    header: MailHeaderModel,
    headers: Seq<MailHeaderModel>,
    body: Text,
    attachments: Seq<AttachmentModel>,
)
    requires
        command_laws::lives_at(s, account, at),
    ensures
        s.on_imap(account, ImapEventModel::MailData { mailbox, header, body, attachments }) == (
        AppModel {
            effects: s.effects.push(
                EffectModel::Db(
                    DbCommandModel::IndexMail {
                        account_id: account,
                        mailbox,
                        header,
                        body,
                        attachments,
                    },
                ),
            ),
            ..s
        }),
        s.on_imap(account, ImapEventModel::HeadersFrom { mailbox, headers }) == (AppModel {
            effects: s.effects.push(
                EffectModel::Db(
                    DbCommandModel::IndexHeaders { account_id: account, mailbox, headers },
                ),
            ),
            ..s
        }),
{
    command_laws::lemma_lives(s, account, at);
}

// ── The open message ────────────────────────────────────────────────────────

/// The text and the attachments of the open message are shown as they came, if
/// they answer the last request for it; any other changes nothing.
pub proof fn law_the_text_that_is_wanted_is_shown(
    s: AppModel,
    account: Text,
    at: int,
    uid: u32,
    html: Text,
    attachments: Seq<AttachmentModel>,
    req_id: u64,
)
    requires
        command_laws::lives_at(s, account, at),
    ensures
        ({
            let t = s.on_imap(account, ImapEventModel::Body { uid, html, attachments, req_id });
            let wanted = s.active == Some(account) && s.selected_uid == Some(uid)
                && s.current_body_req == req_id;
            &&& wanted ==> t == (AppModel {
                current_message_html: html,
                current_attachments: attachments,
                effects: s.effects.push(EffectModel::ShowPage(html)),
                ..s
            })
            &&& !wanted ==> t == s
        }),
{
    command_laws::lemma_lives(s, account, at);
}

/// A failure to load a message is said, and shown in place of the open message
/// if it answers the last request for it.
pub proof fn law_a_text_that_cannot_be_had_is_said(
    s: AppModel,
    account: Text,
    at: int,
    uid: u32,
    req_id: u64,
    error: Text,
)
    requires
        command_laws::lives_at(s, account, at),
    ensures
        ({
            let t = s.on_imap(account, ImapEventModel::BodyFailed { uid, req_id, error });
            let wanted = s.active == Some(account) && s.selected_uid == Some(uid)
                && s.current_body_req == req_id;
            let said = notified(s, about(s, at, "Could not load message: "@ + error));
            let page = "<i>Could not load message: "@ + crate::html::escaped(error) + "</i>"@;
            &&& wanted ==> t == (AppModel {
                current_message_html: page,
                effects: s.effects.push(EffectModel::ShowPage(page)),
                ..said
            })
            &&& !wanted ==> t == said
        }),
{
    command_laws::lemma_lives(s, account, at);
}

// ── Flags and moves ─────────────────────────────────────────────────────────

/// Whether the list shows a mailbox of an account.
pub open spec fn lists(s: AppModel, account: Text, mailbox: Text) -> bool {
    s.active == Some(account) && s.selected_mailbox == mailbox
}

/// Whether the message at a place of the list is the first with a UID.
pub open spec fn first_at(headers: Seq<MailHeaderModel>, uid: u32, i: int) -> bool {
    &&& 0 <= i < headers.len() && headers[i].uid == uid
    &&& forall|j: int| 0 <= j < i ==> (#[trigger] headers[j]).uid != uid
}

/// The counts of an account with one of them changed, where it is known.
pub open spec fn counted(counts: Map<Text, u32>, mailbox: Text, n: int) -> Map<Text, u32> {
    if counts.dom().contains(mailbox) {
        counts.insert(mailbox, n as u32)
    } else {
        counts
    }
}

/// A count with one message less; there is never less than none.
pub open spec fn less(counts: Map<Text, u32>, mailbox: Text) -> int {
    if counts[mailbox] > 0 {
        counts[mailbox] - 1
    } else {
        0
    }
}

/// New flags reach the listed message they are about and no other, the search
/// results that live where it lives, the cache, and the unread count of its
/// mailbox: one more if it was read and no longer is, one less if it was not and
/// now is.
pub proof fn law_new_flags_reach_the_message_they_are_about(
    s: AppModel,
    account: Text,
    at: int,
    mailbox: Text,
    uid: u32,
    flags: Seq<Text>,
    req_id: u64,
    i: int,
)
    requires
        command_laws::lives_at(s, account, at),
        lists(s, account, mailbox),
        first_at(s.headers, uid, i),
        s.accounts[at].unread_counts.dom().contains(mailbox) ==> s.accounts[at].unread_counts[mailbox]
            < u32::MAX,
    ensures
        ({
            let t = s.on_imap(account, ImapEventModel::FlagsUpdated { mailbox, uid, flags, req_id });
            let was = s.headers[i].is_seen();
            let now = (MailHeaderModel { flags, ..s.headers[i] }).is_seen();
            let counts = s.accounts[at].unread_counts;
            &&& t.headers == s.headers.update(i, MailHeaderModel { flags, ..s.headers[i] })
            &&& t.effects == s.effects.push(
                EffectModel::Db(
                    DbCommandModel::UpdateFlags { account_id: account, mailbox, uid, flags },
                ),
            )
            &&& was && !now ==> t.accounts == s.accounts.update(
                at,
                AccountModel {
                    unread_counts: counted(counts, mailbox, counts[mailbox] + 1),
                    ..s.accounts[at]
                },
            )
            &&& !was && now ==> t.accounts == s.accounts.update(
                at,
                AccountModel {
                    unread_counts: counted(counts, mailbox, less(counts, mailbox)),
                    ..s.accounts[at]
                },
            )
            &&& was == now ==> t.accounts == s.accounts
            &&& t == (AppModel {
                headers: t.headers,
                search_results: t.search_results,
                accounts: t.accounts,
                effects: t.effects,
                ..s
            })
        }),
{
    command_laws::lemma_lives(s, account, at);
    selection::lemma_uid_index(s.headers, uid);
    lemma_first(s.headers, uid, i);
    let l = s.lists_reflagged(account, mailbox, uid, flags);
    command_laws::lemma_lives(l, account, at);
    let t = s.on_imap(account, ImapEventModel::FlagsUpdated { mailbox, uid, flags, req_id });
    assert(l.accounts == s.accounts);
    assert(s.accounts.update(at, s.accounts[at]) =~= s.accounts);
    assert(t.accounts =~= s.accounts || t.accounts.len() == s.accounts.len());
}

proof fn lemma_first(headers: Seq<MailHeaderModel>, uid: u32, i: int)
    requires
        first_at(headers, uid, i),
    ensures
        selection::uid_index(headers, uid) == i,
{
    selection::lemma_uid_index(headers, uid);
    let k = selection::uid_index(headers, uid);
    if k >= 0 && k < i {
        assert(headers[k].uid != uid);
    }
    if k < 0 || k > i {
        assert(headers[i].uid == uid);
    }
}

/// New flags of a message that is not listed reach the cache, and the search
/// results that live where it lives; the list and the counts stay.
pub proof fn law_new_flags_of_an_unlisted_message_reach_the_cache(
    s: AppModel,
    account: Text,
    at: int,
    mailbox: Text,
    uid: u32,
    flags: Seq<Text>,
    req_id: u64,
)
    requires
        command_laws::lives_at(s, account, at),
        !lists(s, account, mailbox) || forall|i: int|
            0 <= i < s.headers.len() ==> (#[trigger] s.headers[i]).uid != uid,
    ensures
        ({
            let t = s.on_imap(account, ImapEventModel::FlagsUpdated { mailbox, uid, flags, req_id });
            t == (AppModel {
                search_results: t.search_results,
                effects: s.effects.push(
                    EffectModel::Db(
                        DbCommandModel::UpdateFlags { account_id: account, mailbox, uid, flags },
                    ),
                ),
                ..s
            })
        }),
{
    command_laws::lemma_lives(s, account, at);
    selection::lemma_uid_index(s.headers, uid);
}

/// Search results get new flags exactly where they are that message: by UID,
/// account and mailbox.
pub proof fn law_new_flags_reach_the_results(
    s: AppModel,
    account: Text,
    at: int,
    mailbox: Text,
    uid: u32,
    flags: Seq<Text>,
    req_id: u64,
    i: int,
)
    requires
        command_laws::lives_at(s, account, at),
        s.search_results is Some,
        0 <= i < s.search_results->0.len(),
        s.search_results->0.len() == s.search_origins.len(),
    ensures
        ({
            let t = s.on_imap(account, ImapEventModel::FlagsUpdated { mailbox, uid, flags, req_id });
            let old = s.search_results->0[i];
            let it = old.uid == uid && s.search_origins[i] == (account, mailbox);
            &&& t.search_results is Some && t.search_results->0.len() == s.search_results->0.len()
            &&& t.search_results->0[i] == (if it {
                MailHeaderModel { flags, ..old }
            } else {
                old
            })
            &&& t.search_origins == s.search_origins
        }),
{
    command_laws::lemma_lives(s, account, at);
    let l = s.lists_reflagged(account, mailbox, uid, flags);
    let t = s.on_imap(account, ImapEventModel::FlagsUpdated { mailbox, uid, flags, req_id });
    assert(t.search_results == l.search_results);
}

/// Counting touches the accounts alone, and of them the one it is about.
proof fn lemma_recounted(s: AppModel, account: Text, at: int, mailbox: Text)
    requires
        command_laws::lives_at(s, account, at),
    ensures
        ({
            let counts = s.accounts[at].unread_counts;
            &&& s.one_less_unread(account, mailbox) == (AppModel {
                accounts: s.accounts.update(
                    at,
                    AccountModel {
                        unread_counts: counted(counts, mailbox, less(counts, mailbox)),
                        ..s.accounts[at]
                    },
                ),
                ..s
            })
            &&& s.one_more_unread(account, mailbox) == (AppModel {
                accounts: s.accounts.update(
                    at,
                    AccountModel {
                        unread_counts: counted(counts, mailbox, counts[mailbox] + 1),
                        ..s.accounts[at]
                    },
                ),
                ..s
            })
        }),
{
    command_laws::lemma_lives(s, account, at);
    assert(s.accounts.update(at, s.accounts[at]) =~= s.accounts);
}

/// A message that moved leaves the list it was in, the others staying in their
/// order, and the selection; if it was open, nothing is. It leaves the cache.
pub proof fn law_a_moved_message_leaves_where_it_was(
    s: AppModel,
    account: Text,
    at: int,
    mailbox: Text,
    uid: u32,
    dest: Text,
    req_id: u64,
)
    requires
        command_laws::lives_at(s, account, at),
    ensures
        ({
            let t = s.on_imap(account, ImapEventModel::Moved { mailbox, uid, dest, req_id });
            let shown = s.active == Some(account);
            let open = shown && s.selected_uid == Some(uid);
            &&& t.headers == (if lists(s, account, mailbox) {
                s.headers.filter(|h: MailHeaderModel| h.uid != uid)
            } else {
                s.headers
            })
            &&& t.selected_uids == (if shown {
                s.selected_uids.remove(uid)
            } else {
                s.selected_uids
            })
            &&& t.status == (if shown {
                "Moved to "@ + dest
            } else {
                s.status
            })
            &&& t.selected_uid == (if open {
                None
            } else {
                s.selected_uid
            })
            &&& t.effects == (if open {
                s.effects.push(EffectModel::ShowPage("<i>Message moved.</i>"@))
            } else {
                s.effects
            }).push(
                EffectModel::Db(DbCommandModel::RemoveMessage { account_id: account, mailbox, uid }),
            )
        }),
{
    command_laws::lemma_lives(s, account, at);
    lemma_without(s.headers, uid);
    let d = s.lists_without(account, mailbox, uid).deselected(account, uid, dest);
    assert(d.accounts == s.accounts);
    lemma_recounted(d, account, at, mailbox);
    let first = d.one_less_unread(account, mailbox);
    assert(command_laws::lives_at(first, account, at)) by {
        assert forall|i: int| 0 <= i < at implies (#[trigger] first.accounts[i]).id != account by {
            assert(first.accounts[i] == s.accounts[i]);
        }
    }
    lemma_recounted(first, account, at, dest);
}

/// A message that moved and was listed as unread is counted where it went and no
/// longer where it was; any other changes no count.
pub proof fn law_a_moved_message_is_counted_where_it_went(
    s: AppModel,
    account: Text,
    at: int,
    mailbox: Text,
    uid: u32,
    dest: Text,
    req_id: u64,
    i: int,
)
    requires
        command_laws::lives_at(s, account, at),
    ensures
        ({
            let t = s.on_imap(account, ImapEventModel::Moved { mailbox, uid, dest, req_id });
            let counts = s.accounts[at].unread_counts;
            let out = counted(counts, mailbox, less(counts, mailbox));
            &&& !lists(s, account, mailbox) ==> t.accounts == s.accounts
            &&& (forall|j: int| 0 <= j < s.headers.len() ==> (#[trigger] s.headers[j]).uid != uid)
                ==> t.accounts == s.accounts
            &&& first_at(s.headers, uid, i) && s.headers[i].is_seen() ==> t.accounts == s.accounts
            &&& lists(s, account, mailbox) && first_at(s.headers, uid, i) && !s.headers[i].is_seen()
                ==> t.accounts == s.accounts.update(
                at,
                AccountModel {
                    unread_counts: counted(out, dest, out[dest] + 1),
                    ..s.accounts[at]
                },
            )
        }),
{
    command_laws::lemma_lives(s, account, at);
    selection::lemma_uid_index(s.headers, uid);
    if first_at(s.headers, uid, i) {
        lemma_first(s.headers, uid, i);
    }
    let d = s.lists_without(account, mailbox, uid).deselected(account, uid, dest);
    assert(d.accounts == s.accounts);
    if lists(s, account, mailbox) && first_at(s.headers, uid, i) && !s.headers[i].is_seen() {
        lemma_recounted(d, account, at, mailbox);
        let first = d.one_less_unread(account, mailbox);
        assert(command_laws::lives_at(first, account, at)) by {
            assert forall|i: int| 0 <= i < at implies (#[trigger] first.accounts[i]).id != account by {
                assert(first.accounts[i] == s.accounts[i]);
            }
        }
        lemma_recounted(first, account, at, dest);
        let t = s.on_imap(account, ImapEventModel::Moved { mailbox, uid, dest, req_id });
        let counts = s.accounts[at].unread_counts;
        let out = counted(counts, mailbox, less(counts, mailbox));
        assert(t.accounts =~= s.accounts.update(
            at,
            AccountModel { unread_counts: counted(out, dest, out[dest] + 1), ..s.accounts[at] },
        ));
    }
}

proof fn lemma_without(headers: Seq<MailHeaderModel>, uid: u32)
    ensures
        app_changes::without_message(headers, uid) == headers.filter(
            |h: MailHeaderModel| h.uid != uid,
        ),
    decreases headers.len(),
{
    reveal(Seq::filter);
    if headers.len() > 0 {
        lemma_without(headers.drop_last(), uid);
    }
}

// ── What the cache answers ──────────────────────────────────────────────────

/// Search results are shown as they were found, each with the account and the
/// mailbox it lives in.
pub proof fn law_results_are_shown_as_found(s: AppModel, hits: Seq<SearchHitModel>, i: int)
    requires
        0 <= i < hits.len(),
    ensures
        ({
            let t = s.on_db(DbEventModel::SearchResult { hits });
            &&& t.search_results is Some && t.search_results->0.len() == hits.len()
                && t.search_origins.len() == hits.len()
            &&& t.search_results->0[i] == hits[i].header
            &&& t.search_origins[i].0 == hits[i].account_id && t.search_origins[i].1 == hits[i].mailbox
            &&& t == (AppModel {
                search_results: t.search_results,
                search_origins: t.search_origins,
                ..s
            })
        }),
{
}

/// The cached text of the open message is shown as it was kept; one that the cache
/// does not have is asked of the server, under a new request.
pub proof fn law_cached_texts_are_shown(
    s: AppModel,
    account: Text,
    at: int,
    header: MailHeaderModel,
    body: Text,
    attachments: Seq<AttachmentModel>,
    uid: u32,
    error: Text,
)
    requires
        command_laws::shows(s, account, at),
        s.next_req_id < u64::MAX,
    ensures
        ({
            let t = s.on_db(DbEventModel::MailFetched { header, body, attachments });
            &&& s.selected_uid == Some(header.uid) ==> t == (AppModel {
                current_message_html: body,
                current_attachments: attachments,
                effects: s.effects.push(EffectModel::ShowPage(body)),
                ..s
            })
            &&& s.selected_uid != Some(header.uid) ==> t == s
        }),
        ({
            let t = s.on_db(DbEventModel::MailFetchFailed { uid, error });
            let req_id = command_laws::request(s, 0);
            &&& s.selected_uid == Some(uid) ==> t == (AppModel {
                current_body_req: req_id,
                next_req_id: req_id,
                effects: s.effects.push(
                    EffectModel::Imap {
                        account,
                        cmd: ImapCommandModel::FetchBody {
                            mailbox: s.selected_mailbox,
                            uid,
                            req_id,
                        },
                    },
                ),
                ..s
            })
            &&& s.selected_uid != Some(uid) ==> t == s
        }),
{
    command_laws::lemma_lives(s.with_req_id(), account, at);
}

/// What the cache lacks is fetched for the account and mailbox it lacks it of:
/// from the first UID it lacks, or from the first of all after a resync; where it
/// lacks nothing, nothing is. An error of the database is said.
pub proof fn law_the_cache_is_brought_up_to_date(
    s: AppModel,
    account: Text,
    at: int,
    mailbox: Text,
    first_new_uid: u32,
    error: Text,
)
    requires
        command_laws::lives_at(s, account, at),
    ensures
        s.on_db(
            DbEventModel::SyncPlan { account_id: account, mailbox, plan: SyncPlan::UpToDate },
        ) == s,
        s.on_db(
            DbEventModel::SyncPlan {
                account_id: account,
                mailbox,
                plan: SyncPlan::FetchFrom { first_new_uid },
            },
        ) == (AppModel {
            effects: s.effects.push(
                EffectModel::Imap {
                    account,
                    cmd: ImapCommandModel::FetchHeadersFrom { mailbox, first_uid: first_new_uid },
                },
            ),
            ..s
        }),
        s.on_db(
            DbEventModel::SyncPlan { account_id: account, mailbox, plan: SyncPlan::Resync },
        ) == (AppModel {
            effects: s.effects.push(
                EffectModel::Imap {
                    account,
                    cmd: ImapCommandModel::FetchHeadersFrom { mailbox, first_uid: 1 },
                },
            ),
            ..s
        }),
        s.on_db(DbEventModel::Error(error)) == notified(s, "Database error: "@ + error),
{
    command_laws::lemma_lives(s, account, at);
}

} // verus!
