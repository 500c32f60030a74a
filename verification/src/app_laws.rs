//! What holds of the program as a whole, whatever events come in and in
//! whatever order.

use vstd::prelude::*;
use vstd::string::*;
use crate::app;
use crate::app_changes;
use crate::app_keys;
use crate::app_keys::Pressed;
use crate::db::DbEventModel;
use crate::events::{ImapCommandModel, ImapEventModel};
use crate::imap;
use crate::imap::{AttachmentModel, MailHeaderModel};
use crate::state::{AccountModel, AppModel, EffectModel};
use crate::text::Text;

verus! {

broadcast use vstd::string::group_string_axioms;

// ── Accounts ────────────────────────────────────────────────────────────────

/// Whether all accounts but one are as they were.
pub open spec fn others_kept(before: Seq<AccountModel>, after: Seq<AccountModel>, account: Text) -> bool {
    &&& after.len() == before.len()
    &&& forall|i: int|
        0 <= i < before.len() ==> {
            &&& (#[trigger] after[i]).id == before[i].id
            &&& before[i].id != account ==> after[i] == before[i]
        }
}

/// An event of an account that has been removed changes nothing.
pub proof fn law_events_of_removed_accounts_are_ignored(
    s: AppModel,
    account: Text,
    event: ImapEventModel,
)
    requires
        !s.has_account(account),
    ensures
        s.on_imap(account, event) == s,
{
}

/// An event changes nothing that is kept for another account.
pub proof fn law_events_stay_with_their_account(s: AppModel, account: Text, event: ImapEventModel)
    ensures
        others_kept(s.accounts, s.on_imap(account, event).accounts, account),
{
    if s.has_account(account) {
        app::lemma_account_index(s.accounts, account);
        match event {
            ImapEventModel::Connected => {
                reveal(AppModel::activated);
            },
            ImapEventModel::FlagsUpdated { mailbox, uid, flags, req_id } => {
                lemma_flags_accounts(s, account, mailbox, uid, flags);
            },
            ImapEventModel::Moved { mailbox, uid, dest, req_id } => {
                lemma_move_accounts(s, account, mailbox, uid, dest);
            },
            _ => {},
        }
    }
}

/// Counting one message more or less in an account changes no other account.
proof fn lemma_recount(s: AppModel, account: Text, mailbox: Text)
    ensures
        others_kept(s.accounts, s.one_more_unread(account, mailbox).accounts, account),
        others_kept(s.accounts, s.one_less_unread(account, mailbox).accounts, account),
{
    app::lemma_account_index(s.accounts, account);
}

proof fn lemma_flags_accounts(s: AppModel, account: Text, mailbox: Text, uid: u32, flags: Seq<Text>)
    ensures
        others_kept(
            s.accounts,
            s.on_flags_updated(account, mailbox, uid, flags).accounts,
            account,
        ),
{
    let t = s.lists_reflagged(account, mailbox, uid, flags);
    assert(t.accounts == s.accounts);
    lemma_recount(t, account, mailbox);
}

proof fn lemma_move_accounts(s: AppModel, account: Text, mailbox: Text, uid: u32, dest: Text)
    ensures
        others_kept(s.accounts, s.on_moved(account, mailbox, uid, dest).accounts, account),
{
    let t = s.lists_without(account, mailbox, uid).deselected(account, uid, dest);
    assert(t.accounts == s.accounts);
    lemma_recount(t, account, mailbox);
    let u = t.one_less_unread(account, mailbox);
    lemma_recount(u, account, dest);
    let v = u.one_more_unread(account, dest);
    assert forall|i: int| 0 <= i < s.accounts.len() implies {
        &&& (#[trigger] v.accounts[i]).id == s.accounts[i].id
        &&& s.accounts[i].id != account ==> v.accounts[i] == s.accounts[i]
    } by {
        assert(u.accounts[i].id == t.accounts[i].id);
    }
}

/// Logging out of an account leaves every other account as it was, and, unless
/// it was the one shown, the message list and the reading pane too.
pub proof fn law_logout_leaves_the_others(s: AppModel, account: Text)
    ensures
        s.dropped(account).accounts == app::without_account(s.accounts, account),
        !s.is_active(account) ==> same_screen(s, s.dropped(account)),
        forall|a: AccountModel| #[trigger]
            app::without_account(s.accounts, account).contains(a) <==> (s.accounts.contains(a) && a.id
                != account),
{
    reveal(AppModel::nothing_shown);
    reveal(AppModel::activated);
    assert forall|a: AccountModel| #[trigger]
        app::without_account(s.accounts, account).contains(a) <==> (s.accounts.contains(a) && a.id
            != account) by {
        lemma_without_account(s.accounts, account, a);
    }
}

proof fn lemma_without_account(accounts: Seq<AccountModel>, id: Text, a: AccountModel)
    ensures
        app::without_account(accounts, id).contains(a) <==> (accounts.contains(a) && a.id != id),
    decreases accounts.len(),
{
    if accounts.len() > 0 {
        let rest = accounts.drop_last();
        let last = accounts.last();
        lemma_without_account(rest, id, a);
        assert(accounts =~= rest.push(last));
        lemma_push_contains(rest, last, a);
        lemma_push_contains(app::without_account(rest, id), last, a);
    }
}

proof fn lemma_push_contains<T>(s: Seq<T>, x: T, y: T)
    ensures
        s.push(x).contains(y) <==> (s.contains(y) || x == y),
{
    let t = s.push(x);
    if s.contains(y) {
        let i = choose|i: int| 0 <= i < s.len() && s[i] == y;
        assert(t[i] == y);
    }
    if x == y {
        assert(t[s.len() as int] == y);
    }
    if t.contains(y) && x != y {
        let i = choose|i: int| 0 <= i < t.len() && t[i] == y;
        assert(s[i] == y);
    }
}

// ── The message list and the reading pane ───────────────────────────────────

/// Whether the message list and the reading pane show the same.
pub open spec fn same_screen(a: AppModel, b: AppModel) -> bool {
    &&& a.active == b.active
    &&& a.selected_mailbox == b.selected_mailbox
    &&& a.headers == b.headers
    &&& a.current_page == b.current_page
    &&& a.total_pages == b.total_pages
    &&& a.selected_uid == b.selected_uid
    &&& a.selected_uids == b.selected_uids
    &&& a.select_anchor == b.select_anchor
    &&& a.current_message_html == b.current_message_html
    &&& a.current_attachments == b.current_attachments
    &&& a.current_sender == b.current_sender
    &&& a.allow_remote == b.allow_remote
}

proof fn lemma_flags_of_another_account(
    s: AppModel,
    account: Text,
    mailbox: Text,
    uid: u32,
    flags: Seq<Text>,
)
    requires
        s.active is Some,
        !s.is_active(account),
    ensures
        same_screen(s, s.on_flags_updated(account, mailbox, uid, flags)),
{
    assert(s.was_seen(account, mailbox, uid) is None);
}

proof fn lemma_move_of_another_account(s: AppModel, account: Text, mailbox: Text, uid: u32, dest: Text)
    requires
        s.active is Some,
        !s.is_active(account),
    ensures
        same_screen(s, s.on_moved(account, mailbox, uid, dest)),
{
    assert(s.was_seen(account, mailbox, uid) is None);
}

/// While one account is shown, no event of another changes the message list or
/// the reading pane.
#[verifier::rlimit(40)]
pub proof fn law_other_accounts_never_change_the_screen(
    s: AppModel,
    account: Text,
    event: ImapEventModel,
)
    requires
        s.active is Some,
        !s.is_active(account),
    ensures
        same_screen(s, s.on_imap(account, event)),
{
    if s.has_account(account) {
        match event {
            ImapEventModel::FlagsUpdated { mailbox, uid, flags, req_id } => {
                lemma_flags_of_another_account(s, account, mailbox, uid, flags);
            },
            ImapEventModel::Moved { mailbox, uid, dest, req_id } => {
                lemma_move_of_another_account(s, account, mailbox, uid, dest);
            },
            _ => {},
        }
    }
}

/// A late reply to an older request for headers is not listed; all it does is
/// keep the cache up to date.
pub proof fn law_late_headers_are_not_listed(
    s: AppModel,
    account: Text,
    mailbox: Text,
    headers: Seq<MailHeaderModel>,
    page: u32,
    total_pages: u32,
    req_id: u64,
    state: imap::MailboxState,
)
    requires
        req_id != s.current_headers_req,
    ensures
        ({
            let t = s.on_headers(account, mailbox, headers, page, total_pages, req_id, state);
            t == (AppModel { effects: t.effects, ..s })
        }),
{
}

/// Once a message is opened, no body that was asked for before is shown any
/// more, even one for a message with the same UID.
pub proof fn law_late_bodies_are_not_shown(
    s: AppModel,
    opened_uid: u32,
    is_search: bool,
    sender: Option<Text>,
    trusted: bool,
    now: u64,
    account: Text,
    uid: u32,
    page: Text,
    attachments: Seq<AttachmentModel>,
    req_id: u64,
)
    requires
        s.has_ids(1),
        req_id <= s.next_req_id,
    ensures
        ({
            let t = s.opened(opened_uid, is_search, sender, trusted, now);
            t.on_body(account, uid, page, attachments, req_id) == t
        }),
{
}

/// While a message is being loaded there is nothing to quote, least of all the
/// message that was open before.
pub proof fn law_a_message_being_loaded_is_not_quoted(
    s: AppModel,
    uid: u32,
    is_search: bool,
    sender: Option<Text>,
    trusted: bool,
    now: u64,
)
    ensures
        s.opened(uid, is_search, sender, trusted, now).current_message_html.len() == 0,
        s.opened(uid, is_search, sender, trusted, now).current_sender == sender,
{
}

/// A failure to load the message that is open always replaces the notice that
/// it is being loaded.
pub proof fn law_a_failed_body_is_reported(s: AppModel, account: Text, uid: u32, req_id: u64, error: Text)
    requires
        s.wants_body(account, uid, req_id),
    ensures
        ({
            let t = s.on_body_failed(account, uid, req_id, error);
            &&& t.current_message_html == crate::html::failure_page(error)
            &&& t.effects == s.effects.push(EffectModel::ShowPage(crate::html::failure_page(error)))
        }),
{
}

/// A message that the cache has lost is fetched from the server.
pub proof fn law_a_cache_miss_is_fetched(s: AppModel, uid: u32, error: Text)
    requires
        s.has_ids(1),
        s.selected_uid == Some(uid),
        s.active is Some,
        s.has_account(s.active->0),
    ensures
        ({
            let t = s.on_db(DbEventModel::MailFetchFailed { uid, error });
            t.effects == s.effects.push(
                EffectModel::Imap {
                    account: s.active->0,
                    cmd: ImapCommandModel::FetchBody {
                        mailbox: s.selected_mailbox,
                        uid,
                        req_id: t.current_body_req,
                    },
                },
            )
        }),
{
}

/// A message is marked read only if it stays open for long enough.
pub proof fn law_passing_over_marks_nothing(s: AppModel, now: u64)
    requires
        s.pending_mark_seen matches Some((uid, at)) ==> s.selected_uid != Some(uid) || app::elapsed(
            now,
            at,
        ) < app::MARK_SEEN_DELAY,
    ensures
        s.seen_if_due(now).effects == s.effects,
{
}

// ── Search results ──────────────────────────────────────────────────────────

/// Whether each search result has its origin, and there are no others.
pub open spec fn hits_are_paired(s: AppModel) -> bool {
    match s.search_results {
        Some(results) => results.len() == s.search_origins.len(),
        None => s.search_origins.len() == 0,
    }
}

/// The search results and where they live stay index for index, whatever an
/// account tells.
pub proof fn law_results_keep_their_origins(s: AppModel, account: Text, event: ImapEventModel)
    requires
        hits_are_paired(s),
    ensures
        hits_are_paired(s.on_imap(account, event)),
{
    if s.has_account(account) {
        match event {
            ImapEventModel::Connected => {
                lemma_connected_hits(s, account);
            },
            ImapEventModel::FlagsUpdated { mailbox, uid, flags, req_id } => {
                let t = s.lists_reflagged(account, mailbox, uid, flags);
                let u = s.on_flags_updated(account, mailbox, uid, flags);
                assert(t.search_results == u.search_results);
                assert(t.search_origins == u.search_origins);
            },
            ImapEventModel::Moved { mailbox, uid, dest, req_id } => {
                if s.search_results is Some {
                    lemma_hits_without(
                        s.search_results->0,
                        s.search_origins,
                        app_changes::paired(s.search_results->0, s.search_origins),
                        account,
                        mailbox,
                        uid,
                    );
                }
                let t = s.lists_without(account, mailbox, uid);
                let u = s.on_moved(account, mailbox, uid, dest);
                assert(t.search_results == u.search_results);
                assert(t.search_origins == u.search_origins);
            },
            _ => {
                let t = s.on_account_event(account, event);
                assert(t.search_results == s.search_results);
                assert(t.search_origins == s.search_origins);
            },
        }
    }
}

proof fn lemma_connected_hits(s: AppModel, account: Text)
    requires
        hits_are_paired(s),
    ensures
        hits_are_paired(s.on_connected(account)),
{
    reveal(AppModel::activated);
}

/// The search results and where they live stay index for index, whatever the
/// cache answers.
pub proof fn law_answers_keep_their_origins(s: AppModel, answer: DbEventModel)
    requires
        hits_are_paired(s),
    ensures
        hits_are_paired(s.on_db(answer)),
{
}

/// The results that stay come with the origins they had, and the message that
/// moved is not among them.
proof fn lemma_hits_without(
    results: Seq<MailHeaderModel>,
    origins: Seq<(Text, Text)>,
    n: nat,
    account: Text,
    mailbox: Text,
    uid: u32,
)
    requires
        n <= results.len(),
        n <= origins.len(),
    ensures
        ({
            let kept = app_changes::hits_without(results, origins, n, account, mailbox, uid);
            &&& kept.0.len() == kept.1.len()
            &&& forall|i: int|
                0 <= i < kept.0.len() ==> !((#[trigger] kept.0[i]).uid == uid && kept.1[i] == (
                    account,
                    mailbox,
                ))
        }),
    decreases n,
{
    if n > 0 {
        lemma_hits_without(results, origins, (n - 1) as nat, account, mailbox, uid);
    }
}

proof fn lemma_without_message(list: Seq<MailHeaderModel>, uid: u32)
    ensures
        forall|i: int|
            0 <= i < app_changes::without_message(list, uid).len() ==> (
            #[trigger] app_changes::without_message(list, uid)[i]).uid != uid,
    decreases list.len(),
{
    if list.len() > 0 {
        let inner = app_changes::without_message(list.drop_last(), uid);
        let out = app_changes::without_message(list, uid);
        lemma_without_message(list.drop_last(), uid);
        assert forall|i: int| 0 <= i < out.len() implies (#[trigger] out[i]).uid != uid by {
            if i < inner.len() {
                assert(inner[i].uid != uid);
            }
        }
    }
}

/// A message that moved is gone from the list, from the search results and
/// from the selection.
pub proof fn law_a_moved_message_leaves_every_list(
    s: AppModel,
    account: Text,
    mailbox: Text,
    uid: u32,
    dest: Text,
)
    ensures
        ({
            let t = s.on_moved(account, mailbox, uid, dest);
            &&& s.is_on_screen(account, mailbox) ==> forall|i: int|
                0 <= i < t.headers.len() ==> (#[trigger] t.headers[i]).uid != uid
            &&& t.search_results matches Some(results) ==> forall|i: int|
                0 <= i < results.len() ==> !((#[trigger] results[i]).uid == uid
                    && t.search_origins[i] == (account, mailbox))
            &&& s.is_active(account) ==> !t.selected_uids.contains(uid) && t.selected_uid != Some(uid)
        }),
{
    lemma_without_message(s.headers, uid);
    if s.search_results is Some {
        lemma_hits_without(
            s.search_results->0,
            s.search_origins,
            app_changes::paired(s.search_results->0, s.search_origins),
            account,
            mailbox,
            uid,
        );
    }
    let t = s.lists_without(account, mailbox, uid).deselected(account, uid, dest);
    assert(t.selected_uids == s.on_moved(account, mailbox, uid, dest).selected_uids);
    assert(t.selected_uid == s.on_moved(account, mailbox, uid, dest).selected_uid);
    assert(t.headers == s.on_moved(account, mailbox, uid, dest).headers);
    assert(t.search_results == s.on_moved(account, mailbox, uid, dest).search_results);
    assert(t.search_origins == s.on_moved(account, mailbox, uid, dest).search_origins);
}

/// Search results of other mailboxes keep their flags, even for a message with
/// the same UID.
pub proof fn law_flags_follow_the_origin(
    s: AppModel,
    account: Text,
    mailbox: Text,
    uid: u32,
    flags: Seq<Text>,
    i: int,
)
    requires
        s.search_results is Some,
        hits_are_paired(s),
        0 <= i < s.search_origins.len(),
    ensures
        ({
            let before = s.search_results->0[i];
            let t = s.on_flags_updated(account, mailbox, uid, flags);
            &&& t.search_results is Some
            &&& t.search_results->0[i] == (if before.uid == uid && s.search_origins[i] == (
                account,
                mailbox,
            ) {
                MailHeaderModel { flags, ..before }
            } else {
                before
            })
        }),
{
    let t = s.lists_reflagged(account, mailbox, uid, flags);
    assert(t.search_results == s.on_flags_updated(account, mailbox, uid, flags).search_results);
}

// ── Bulk actions ────────────────────────────────────────────────────────────

/// Each message of a selection is starred or unstarred by its own state, not
/// by that of the others.
pub proof fn law_stars_are_toggled_one_by_one(s: AppModel, uids: Seq<u32>, i: int)
    requires
        s.next_req_id + uids.len() <= u64::MAX,
        s.active is Some,
        s.has_account(s.active->0),
        0 <= i < uids.len(),
    ensures
        ({
            let t = s.stars_toggled_on(uids);
            let change = app::star_change(s.is_flagged_uid(uids[i]));
            &&& t.effects.len() == s.effects.len() + uids.len()
            &&& t.effects[s.effects.len() + i] == (EffectModel::Imap {
                account: s.active->0,
                cmd: ImapCommandModel::StoreFlags {
                    mailbox: s.selected_mailbox,
                    uid: uids[i],
                    add: change.0,
                    remove: change.1,
                    req_id: (s.next_req_id + i + 1) as u64,
                },
            })
        }),
    decreases uids.len(),
{
    let rest = uids.drop_last();
    app::lemma_stars_toggled_on(s, rest);
    if rest.len() > 0 {
        if i < rest.len() {
            law_stars_are_toggled_one_by_one(s, rest, i);
        } else {
            law_stars_are_toggled_one_by_one(s, rest, 0);
        }
    }
}

/// A message that is opened again keeps its own sender: the one it is listed
/// with, or, where it is not on screen, the one it was opened with. It is never
/// taken for a message of another mailbox with the same UID.
pub proof fn law_a_message_opened_again_keeps_its_sender(
    s: AppModel,
    senders: Seq<app_keys::SenderModel>,
    open_trusted: bool,
    now: u64,
)
    requires
        s.selected_uid is Some,
    ensures
        ({
            let t = s.key_enter(true, senders, open_trusted, now);
            let i = s.open_index();
            &&& t.selected_uid == s.selected_uid
            &&& i < 0 ==> t.current_sender == s.current_sender && t.allow_remote == open_trusted
            &&& 0 <= i < senders.len() ==> t.current_sender == senders[i].address && t.allow_remote
                == senders[i].trusted
            &&& i >= 0 && s.search_results is Some ==> s.in_open_context(i)
        }),
{
    reveal(AppModel::key_enter);
    if let Some(results) = s.search_results {
        app::lemma_open_hit_index(s, results, s.selected_uid->0);
    }
}

/// No shortcut works while the search box has the caret.
pub proof fn law_typing_a_search_fires_no_shortcut(
    s: AppModel,
    ctrl: bool,
    pressed: Pressed,
    senders: Seq<app_keys::SenderModel>,
    open_trusted: bool,
    now: u64,
)
    ensures
        s.on_keys(app_keys::shortcuts_of(true, ctrl, pressed), senders, open_trusted, now) == s,
{
    reveal(AppModel::keys_begun);
    reveal(AppModel::keys_opened);
    reveal(AppModel::keys_acted);
    reveal(AppModel::key_search);
    reveal(AppModel::key_compose);
    reveal(AppModel::key_step);
    reveal(AppModel::key_enter);
    reveal(AppModel::key_reply);
    reveal(AppModel::key_move);
    reveal(AppModel::key_star);
}

} // verus!
