//! What the user's actions ask of the accounts, the cache and the windows: which
//! commands go out, for which messages, and in which order.

use vstd::prelude::*;
use vstd::string::*;
use crate::app;
use crate::app_keys;
use crate::app_keys::{Keys, Pressed, SenderModel};
use crate::db::DbCommandModel;
use crate::events::ImapCommandModel;
use crate::imap::{MailHeaderModel, SpecialUse};
use crate::mailboxes;
use crate::mailboxes::RowModel;
use crate::selection;
use crate::state::{AccountModel, AppModel, EffectModel};
use crate::text::Text;

verus! {

broadcast use vstd::string::group_string_axioms;

// ── The account shown ───────────────────────────────────────────────────────

/// Whether the account shown is `account`, and it stands at `at` among the
/// accounts, the first with its id.
pub open spec fn shows(s: AppModel, account: Text, at: int) -> bool {
    &&& s.active == Some(account)
    &&& lives_at(s, account, at)
}

/// Whether the first account with an id stands at `at`.
pub open spec fn lives_at(s: AppModel, account: Text, at: int) -> bool {
    &&& 0 <= at < s.accounts.len()
    &&& s.accounts[at].id == account
    &&& forall|i: int| 0 <= i < at ==> (#[trigger] s.accounts[i]).id != account
}

/// Whether no account has an id.
pub open spec fn lives_nowhere(s: AppModel, account: Text) -> bool {
    forall|i: int| 0 <= i < s.accounts.len() ==> (#[trigger] s.accounts[i]).id != account
}

/// The first account with an id is the one that is found.
pub proof fn lemma_lives(s: AppModel, account: Text, at: int)
    ensures
        lives_at(s, account, at) ==> s.has_account(account) && s.index_of(account) == at
            && s.account(account) == s.accounts[at],
        lives_nowhere(s, account) ==> !s.has_account(account),
{
    lemma_index(s.accounts, account);
    if lives_at(s, account, at) {
        let i = s.index_of(account);
        app::lemma_account_index(s.accounts, account);
        assert(i >= 0);
        if i < at {
            assert(s.accounts[i].id != account);
        }
        if i > at {
            assert(s.accounts[at].id == account);
        }
    }
}

proof fn lemma_index(accounts: Seq<AccountModel>, id: Text)
    ensures
        -1 <= app::account_index(accounts, id) < accounts.len(),
        app::account_index(accounts, id) >= 0 ==> accounts[app::account_index(accounts, id)].id == id
            && forall|i: int|
            0 <= i < app::account_index(accounts, id) ==> (#[trigger] accounts[i]).id != id,
        app::account_index(accounts, id) < 0 ==> forall|i: int|
            0 <= i < accounts.len() ==> (#[trigger] accounts[i]).id != id,
    decreases accounts.len(),
{
    if accounts.len() > 0 {
        let few = accounts.drop_last();
        lemma_index(few, id);
        assert forall|i: int| 0 <= i < few.len() implies #[trigger] accounts[i] == few[i] by {}
    }
}

/// What is said of an account is looked up by its id: its label where there is
/// such an account, else the id itself.
pub proof fn law_accounts_are_known_by_their_id(s: AppModel, account: Text, at: int)
    ensures
        lives_at(s, account, at) ==> s.has_account(account) && s.account(account) == s.accounts[at]
            && s.label(account) == s.accounts[at].label,
        lives_nowhere(s, account) ==> !s.has_account(account) && s.label(account) == account,
{
    lemma_lives(s, account, at);
}

// ── Bulk actions ────────────────────────────────────────────────────────────

/// The requests that follow so many others, each by its number.
pub open spec fn request(s: AppModel, i: int) -> u64 {
    (s.next_req_id + 1 + i) as u64
}

/// Every target of a bulk move is asked to be moved, once and in order, out of
/// the open mailbox and to where it was said to go; nothing else is asked and
/// nothing else changes.
pub proof fn law_every_target_is_moved(s: AppModel, account: Text, at: int, uids: Seq<u32>, dest: Text)
    requires
        shows(s, account, at),
        s.next_req_id + uids.len() <= u64::MAX,
    ensures
        ({
            let t = s.moves_wanted_on(uids, dest);
            &&& t.effects == s.effects + Seq::new(
                uids.len(),
                |i: int|
                    EffectModel::Imap {
                        account,
                        cmd: ImapCommandModel::MoveMessage {
                            mailbox: s.selected_mailbox,
                            uid: uids[i],
                            dest,
                            req_id: request(s, i),
                        },
                    },
            )
            &&& t.next_req_id == s.next_req_id + uids.len()
            &&& t == (AppModel { next_req_id: t.next_req_id, effects: t.effects, ..s })
        }),
    decreases uids.len(),
{
    let t = s.moves_wanted_on(uids, dest);
    let all = Seq::new(
        uids.len(),
        |i: int|
            EffectModel::Imap {
                account,
                cmd: ImapCommandModel::MoveMessage {
                    mailbox: s.selected_mailbox,
                    uid: uids[i],
                    dest,
                    req_id: request(s, i),
                },
            },
    );
    if uids.len() > 0 {
        let few = uids.drop_last();
        law_every_target_is_moved(s, account, at, few, dest);
        let before = s.moves_wanted_on(few, dest);
        lemma_lives(before, account, at);
        assert(t.effects =~= s.effects + all);
    } else {
        assert(t.effects =~= s.effects + all);
    }
}

/// Every target of a bulk change of flags is asked to be changed, once and in
/// order, by the flags that were said to be added and removed; nothing else is
/// asked and nothing else changes.
pub proof fn law_every_target_is_flagged(
    s: AppModel,
    account: Text,
    at: int,
    uids: Seq<u32>,
    add: Seq<Text>,
    remove: Seq<Text>,
)
    requires
        shows(s, account, at),
        s.next_req_id + uids.len() <= u64::MAX,
    ensures
        ({
            let t = s.flags_wanted_on(uids, add, remove);
            &&& t.effects == s.effects + Seq::new(
                uids.len(),
                |i: int|
                    EffectModel::Imap {
                        account,
                        cmd: ImapCommandModel::StoreFlags {
                            mailbox: s.selected_mailbox,
                            uid: uids[i],
                            add,
                            remove,
                            req_id: request(s, i),
                        },
                    },
            )
            &&& t.next_req_id == s.next_req_id + uids.len()
            &&& t == (AppModel { next_req_id: t.next_req_id, effects: t.effects, ..s })
        }),
    decreases uids.len(),
{
    let t = s.flags_wanted_on(uids, add, remove);
    let all = Seq::new(
        uids.len(),
        |i: int|
            EffectModel::Imap {
                account,
                cmd: ImapCommandModel::StoreFlags {
                    mailbox: s.selected_mailbox,
                    uid: uids[i],
                    add,
                    remove,
                    req_id: request(s, i),
                },
            },
    );
    if uids.len() > 0 {
        let few = uids.drop_last();
        law_every_target_is_flagged(s, account, at, few, add, remove);
        let before = s.flags_wanted_on(few, add, remove);
        lemma_lives(before, account, at);
        assert(t.effects =~= s.effects + all);
    } else {
        assert(t.effects =~= s.effects + all);
    }
}

/// Whether a message of the list on screen, in the open mailbox, is starred.
pub open spec fn starred(s: AppModel, uid: u32) -> bool {
    match s.search_results {
        Some(results) => exists|i: int|
            0 <= i < results.len() && i < s.search_origins.len() && (#[trigger] results[i]).uid == uid
                && results[i].is_flagged() && s.active is Some && s.search_origins[i].0 == s.active->0
                && s.search_origins[i].1 == s.selected_mailbox,
        None => exists|i: int|
            0 <= i < s.headers.len() && (#[trigger] s.headers[i]).uid == uid
                && s.headers[i].is_flagged(),
    }
}

/// Every target is starred if it was not, and unstarred if it was, once and in
/// order, each by its own state.
pub proof fn law_every_target_changes_its_star(s: AppModel, account: Text, at: int, uids: Seq<u32>)
    requires
        shows(s, account, at),
        s.next_req_id + uids.len() <= u64::MAX,
    ensures
        ({
            let t = s.stars_toggled_on(uids);
            &&& t.effects == s.effects + Seq::new(
                uids.len(),
                |i: int|
                    EffectModel::Imap {
                        account,
                        cmd: ImapCommandModel::StoreFlags {
                            mailbox: s.selected_mailbox,
                            uid: uids[i],
                            add: if starred(s, uids[i]) {
                                seq![]
                            } else {
                                seq!["\\Flagged"@]
                            },
                            remove: if starred(s, uids[i]) {
                                seq!["\\Flagged"@]
                            } else {
                                seq![]
                            },
                            req_id: request(s, i),
                        },
                    },
            )
            &&& t == (AppModel { next_req_id: t.next_req_id, effects: t.effects, ..s })
            &&& t.next_req_id == s.next_req_id + uids.len()
        }),
    decreases uids.len(),
{
    let t = s.stars_toggled_on(uids);
    let all = Seq::new(
        uids.len(),
        |i: int|
            EffectModel::Imap {
                account,
                cmd: ImapCommandModel::StoreFlags {
                    mailbox: s.selected_mailbox,
                    uid: uids[i],
                    add: if starred(s, uids[i]) {
                        seq![]
                    } else {
                        seq!["\\Flagged"@]
                    },
                    remove: if starred(s, uids[i]) {
                        seq!["\\Flagged"@]
                    } else {
                        seq![]
                    },
                    req_id: request(s, i),
                },
            },
    );
    if uids.len() > 0 {
        let few = uids.drop_last();
        law_every_target_changes_its_star(s, account, at, few);
        let before = s.stars_toggled_on(few);
        lemma_lives(before, account, at);
        lemma_starred(s, uids.last());
        assert(t.effects =~= s.effects + all);
    } else {
        assert(t.effects =~= s.effects + all);
    }
}

proof fn lemma_starred(s: AppModel, uid: u32)
    ensures
        s.is_flagged_uid(uid) == starred(s, uid),
{
    if let Some(results) = s.search_results {
        if s.is_flagged_uid(uid) {
            let i = choose|i: int|
                0 <= i < results.len() && (#[trigger] results[i]).uid == uid
                    && results[i].is_flagged() && s.in_open_context(i);
            assert(results[i].uid == uid && s.search_origins[i].0 == s.active->0);
        }
        if starred(s, uid) {
            let i = choose|i: int|
                0 <= i < results.len() && i < s.search_origins.len() && (#[trigger] results[i]).uid
                    == uid && results[i].is_flagged() && s.active is Some && s.search_origins[i].0
                    == s.active->0 && s.search_origins[i].1 == s.selected_mailbox;
            assert(s.search_origins[i] =~= (s.active->0, s.selected_mailbox));
            assert(results[i].uid == uid && s.in_open_context(i));
        }
    }
}

/// Without an account that is shown nothing is asked of any.
pub proof fn law_without_an_account_nothing_is_asked(
    s: AppModel,
    uids: Seq<u32>,
    add: Seq<Text>,
    remove: Seq<Text>,
    dest: Text,
)
    requires
        s.active is None || lives_nowhere(s, s.active->0),
        s.next_req_id + uids.len() <= u64::MAX,
    ensures
        s.moves_wanted_on(uids, dest).effects == s.effects,
        s.flags_wanted_on(uids, add, remove).effects == s.effects,
        s.stars_toggled_on(uids).effects == s.effects,
    decreases uids.len(),
{
    if uids.len() > 0 {
        let few = uids.drop_last();
        law_without_an_account_nothing_is_asked(s, few, add, remove, dest);
        app::lemma_moves_wanted_on(s, few, dest);
        app::lemma_flags_wanted_on(s, few, add, remove);
        app::lemma_stars_toggled_on(s, few);
        if s.active is Some {
            lemma_lives(s.moves_wanted_on(few, dest), s.active->0, 0);
            lemma_lives(s.flags_wanted_on(few, add, remove), s.active->0, 0);
            lemma_lives(s.stars_toggled_on(few), s.active->0, 0);
        }
    }
}

/// A bulk action applies to every selected message, in ascending order and once
/// each, and to no other; without a selection to the open message alone, and
/// without one to nothing. An action on the open message applies to it alone,
/// whatever is selected.
pub proof fn law_actions_apply_to_the_selection_or_the_open_message(s: AppModel)
    requires
        s.selected_uids.finite(),
    ensures
        forall|uid: u32|
            !s.selected_uids.is_empty() ==> (#[trigger] s.targets().contains(uid)
                <==> s.selected_uids.contains(uid)),
        forall|i: int, j: int|
            0 <= i < j < s.targets().len() ==> #[trigger] s.targets()[i] < #[trigger] s.targets()[j],
        s.selected_uids.is_empty() ==> s.targets() == s.open_target(),
        s.selected_uid matches Some(uid) ==> s.open_target() == seq![uid],
        s.selected_uid is None ==> s.open_target().len() == 0,
{
    if !s.selected_uids.is_empty() {
        selection::law_a_selection_is_walked_in_order(s.selected_uids);
        assert forall|uid: u32| #[trigger] s.targets().contains(uid) <==> s.selected_uids.contains(
            uid,
        ) by {
            assert(s.targets().to_set().contains(uid) == s.targets().contains(uid));
        }
    }
}

// ── Folders with a role ─────────────────────────────────────────────────────

/// Whether `mailbox` is where something goes that belongs into the folder with
/// the role `want`: the mailbox of the first folder that has the role, and the
/// conventional one where none has it or it cannot be selected.
pub open spec fn is_folder_for(rows: Seq<RowModel>, want: SpecialUse, default: Text, mailbox: Text) -> bool {
    &&& (forall|i: int| 0 <= i < rows.len() ==> (#[trigger] rows[i]).special_use != Some(want))
        ==> mailbox == default
    &&& forall|i: int|
        0 <= i < rows.len() && (#[trigger] rows[i]).special_use == Some(want) && (forall|j: int|
            0 <= j < i ==> (#[trigger] rows[j]).special_use != Some(want)) ==> mailbox == (
        match rows[i].full_name {
            Some(name) => name,
            None => default,
        })
}

/// The folder that is found for a role is one that has it.
pub proof fn law_folders_are_found_by_their_role(rows: Seq<RowModel>, want: SpecialUse, default: Text)
    ensures
        is_folder_for(rows, want, default, mailboxes::mailbox_for(rows, want, default)),
    decreases rows.len(),
{
    if rows.len() > 0 {
        let rest = rows.drop_first();
        law_folders_are_found_by_their_role(rest, want, default);
        let found = mailboxes::mailbox_for(rows, want, default);
        if rows.first().special_use != Some(want) {
            if forall|i: int| 0 <= i < rows.len() ==> (#[trigger] rows[i]).special_use != Some(want) {
                assert forall|i: int| 0 <= i < rest.len() implies (#[trigger] rest[i]).special_use
                    != Some(want) by {
                    assert(rest[i] == rows[i + 1]);
                }
            }
            assert forall|i: int|
                0 <= i < rows.len() && (#[trigger] rows[i]).special_use == Some(want) && (forall|
                    j: int,
                |
                    0 <= j < i ==> (#[trigger] rows[j]).special_use != Some(want)) implies found == (
            match rows[i].full_name {
                Some(name) => name,
                None => default,
            }) by {
                assert(rest[i - 1] == rows[i]);
                assert forall|j: int| 0 <= j < i - 1 implies (#[trigger] rest[j]).special_use != Some(
                    want,
                ) by {
                    assert(rest[j] == rows[j + 1]);
                }
            }
        } else {
            assert(rows[0].special_use == Some(want));
        }
    }
}

/// Archived messages go to the folder with the role of an archive, and deleted
/// ones to the one with the role of a trash, of the account shown; without such
/// a folder to one named so.
pub proof fn law_archive_and_trash_go_to_their_folders(s: AppModel, account: Text, at: int, uids: Seq<u32>)
    requires
        shows(s, account, at),
        s.next_req_id + uids.len() <= u64::MAX,
    ensures
        ({
            let t = s.archived(uids);
            let n = s.effects.len() as int;
            &&& t.effects.len() == n + uids.len()
            &&& t.effects.take(n) == s.effects
            &&& forall|i: int|
                0 <= i < uids.len() ==> (#[trigger] t.effects[n + i] matches EffectModel::Imap {
                    account: a,
                    cmd: ImapCommandModel::MoveMessage { mailbox, uid, dest, .. },
                } && a == account && mailbox == s.selected_mailbox && uid == uids[i]
                    && is_folder_for(
                    s.accounts[at].mailbox_rows,
                    SpecialUse::Archive,
                    "Archive"@,
                    dest,
                ))
        }),
        ({
            let t = s.trashed(uids);
            let n = s.effects.len() as int;
            &&& t.effects.len() == n + uids.len()
            &&& t.effects.take(n) == s.effects
            &&& forall|i: int|
                0 <= i < uids.len() ==> (#[trigger] t.effects[n + i] matches EffectModel::Imap {
                    account: a,
                    cmd: ImapCommandModel::MoveMessage { mailbox, uid, dest, .. },
                } && a == account && mailbox == s.selected_mailbox && uid == uids[i]
                    && is_folder_for(
                    s.accounts[at].mailbox_rows,
                    SpecialUse::Trash,
                    "Trash"@,
                    dest,
                ))
        }),
{
    lemma_lives(s, account, at);
    let rows = s.accounts[at].mailbox_rows;
    let archive = s.special_mailbox(SpecialUse::Archive, "Archive"@);
    let trash = s.special_mailbox(SpecialUse::Trash, "Trash"@);
    law_folders_are_found_by_their_role(rows, SpecialUse::Archive, "Archive"@);
    law_folders_are_found_by_their_role(rows, SpecialUse::Trash, "Trash"@);
    law_every_target_is_moved(s, account, at, uids, archive);
    law_every_target_is_moved(s, account, at, uids, trash);
    assert(s.archived(uids).effects.take(s.effects.len() as int) =~= s.effects);
    assert(s.trashed(uids).effects.take(s.effects.len() as int) =~= s.effects);
}

// ── Opening a message ───────────────────────────────────────────────────────

/// Whether a message of the open mailbox's list is known to be read.
pub open spec fn known_read(s: AppModel, uid: u32) -> bool {
    exists|i: int|
        0 <= i < s.headers.len() && (#[trigger] s.headers[i]).uid == uid && s.headers[i].is_seen()
}

/// Opening a listed message asks the account shown for that message in the open
/// mailbox, under a request of its own that is the only one still wanted, and
/// says that it is being loaded. It is then the open one, with its sender, its
/// images loaded only if that sender is trusted, and to be marked read later
/// unless it is known to be.
pub proof fn law_opening_asks_for_the_message(
    s: AppModel,
    account: Text,
    at: int,
    uid: u32,
    sender: Option<Text>,
    trusted: bool,
    now: u64,
)
    requires
        shows(s, account, at),
        s.next_req_id < u64::MAX,
    ensures
        ({
            let t = s.opened(uid, false, sender, trusted, now);
            &&& t.current_body_req == s.next_req_id + 1
            &&& t == (AppModel {
                selected_uid: Some(uid),
                current_sender: sender,
                allow_remote: trusted,
                current_message_html: seq![],
                current_attachments: seq![],
                current_body_req: request(s, 0),
                next_req_id: request(s, 0),
                pending_mark_seen: if known_read(s, uid) {
                    None
                } else {
                    Some((uid, now))
                },
                effects: s.effects + seq![
                    EffectModel::ShowPage("<i>Loading message...</i>"@),
                    EffectModel::Imap {
                        account,
                        cmd: ImapCommandModel::FetchBody {
                            mailbox: s.selected_mailbox,
                            uid,
                            req_id: t.current_body_req,
                        },
                    },
                ],
                ..s
            })
        }),
{
    let t = s.opened(uid, false, sender, trusted, now);
    lemma_lives(s.opening(uid, sender, trusted).with_req_id(), account, at);
    assert(t.effects =~= s.effects + seq![
        EffectModel::ShowPage("<i>Loading message...</i>"@),
        EffectModel::Imap {
            account,
            cmd: ImapCommandModel::FetchBody {
                mailbox: s.selected_mailbox,
                uid,
                req_id: t.current_body_req,
            },
        },
    ]);
    assert(known_read(s, uid) == s.listed_as_seen(uid));
}

/// Opening a search result asks the cache for that message, in the account shown
/// and the open mailbox; bodies that were asked of the server before are no
/// longer wanted.
pub proof fn law_opening_a_result_asks_the_cache(
    s: AppModel,
    account: Text,
    uid: u32,
    sender: Option<Text>,
    trusted: bool,
    now: u64,
)
    requires
        s.active == Some(account),
        s.next_req_id < u64::MAX,
    ensures
        ({
            let t = s.opened(uid, true, sender, trusted, now);
            t == (AppModel {
                selected_uid: Some(uid),
                current_sender: sender,
                allow_remote: trusted,
                current_message_html: seq![],
                current_attachments: seq![],
                current_body_req: request(s, 0),
                next_req_id: request(s, 0),
                pending_mark_seen: if known_read(s, uid) {
                    None
                } else {
                    Some((uid, now))
                },
                effects: s.effects + seq![
                    EffectModel::ShowPage("<i>Loading message...</i>"@),
                    EffectModel::Db(
                        DbCommandModel::FetchMail {
                            account_id: account,
                            mailbox: s.selected_mailbox,
                            uid,
                        },
                    ),
                ],
                ..s
            })
        }),
{
    let t = s.opened(uid, true, sender, trusted, now);
    assert(t.effects =~= s.effects + seq![
        EffectModel::ShowPage("<i>Loading message...</i>"@),
        EffectModel::Db(
            DbCommandModel::FetchMail { account_id: account, mailbox: s.selected_mailbox, uid },
        ),
    ]);
    assert(known_read(s, uid) == s.listed_as_seen(uid));
}

/// Opening a search result moves to the account and the mailbox it lives in and
/// opens it there, by its own UID; the list then is that of another mailbox and
/// stale, unless it already was the open one. A result of an account that is not
/// connected opens nothing and says so.
pub proof fn law_a_result_is_opened_where_it_lives(
    s: AppModel,
    i: int,
    at: int,
    sender: Option<Text>,
    trusted: bool,
    now: u64,
)
    requires
        s.search_results is Some,
        0 <= i < s.search_results->0.len(),
        i < s.search_origins.len(),
        s.next_req_id < u64::MAX,
        s.next_banner_id < u64::MAX,
    ensures
        ({
            let (account, mailbox) = s.search_origins[i];
            let uid = s.search_results->0[i].uid;
            let t = s.opened_at(i, sender, trusted, now);
            let stays = s.active == Some(account) && s.selected_mailbox == mailbox;
            &&& lives_at(s, account, at) ==> {
                &&& t.active == Some(account) && t.selected_mailbox == mailbox
                &&& t.selected_uid == Some(uid) && t.current_sender == sender && t.allow_remote
                    == trusted
                &&& t.headers_stale == (s.headers_stale || !stays)
                &&& t.effects == s.effects + seq![
                    EffectModel::ShowPage("<i>Loading message...</i>"@),
                    EffectModel::Db(DbCommandModel::FetchMail { account_id: account, mailbox, uid }),
                ]
                &&& t.search_results == s.search_results && t.search_origins == s.search_origins
                    && t.headers == s.headers
            }
            &&& lives_nowhere(s, account) ==> {
                &&& t.effects == s.effects && t.active == s.active && t.selected_uid == s.selected_uid
                    && t.selected_mailbox == s.selected_mailbox
                &&& t.banners.len() == s.banners.len() + 1
                &&& t.banners.last().message == account
                    + " is not connected. Connect it under Settings > Accounts to open this message."@
            }
        }),
{
    let (account, mailbox) = s.search_origins[i];
    let uid = s.search_results->0[i].uid;
    lemma_lives(s, account, at);
    let stays = s.active == Some(account) && s.selected_mailbox == mailbox;
    let moved = AppModel {
        headers_stale: s.headers_stale || !stays,
        active: Some(account),
        selected_mailbox: mailbox,
        ..s
    };
    law_opening_a_result_asks_the_cache(moved, account, uid, sender, trusted, now);
    if stays {
        assert(moved == s);
    }
}

/// Without a search, a click on a row opens the message of that row.
pub proof fn law_a_row_opens_its_own_message(
    s: AppModel,
    i: int,
    sender: Option<Text>,
    trusted: bool,
    now: u64,
)
    requires
        s.search_results is None,
        0 <= i < s.headers.len(),
    ensures
        s.opened_at(i, sender, trusted, now) == s.opened(
            s.headers[i].uid,
            false,
            sender,
            trusted,
            now,
        ),
{
}

/// An open message is marked read once it has stayed open long enough: 1.2
/// seconds. The account shown is then asked, once, to add the read flag to that
/// message and to remove none. One that is left sooner is never marked.
pub proof fn law_a_message_is_marked_read_in_time(s: AppModel, account: Text, at: int, uid: u32, opened: u64, now: u64)
    requires
        shows(s, account, at),
        s.next_req_id < u64::MAX,
        s.pending_mark_seen == Some((uid, opened)),
    ensures
        ({
            let t = s.seen_if_due(now);
            &&& s.selected_uid == Some(uid) && now >= opened + 1200 ==> t == (AppModel {
                pending_mark_seen: None,
                next_req_id: request(s, 0),
                effects: s.effects.push(
                    EffectModel::Imap {
                        account,
                        cmd: ImapCommandModel::StoreFlags {
                            mailbox: s.selected_mailbox,
                            uid,
                            add: seq!["\\Seen"@],
                            remove: seq![],
                            req_id: request(s, 0),
                        },
                    },
                ),
                ..s
            })
            &&& s.selected_uid == Some(uid) && now < opened + 1200 ==> t == s
            &&& s.selected_uid != Some(uid) ==> t == (AppModel { pending_mark_seen: None, ..s })
            &&& t.pending_mark_seen is None ==> t.seen_if_due(now) == t
        }),
{
    lemma_lives(s, account, at);
    lemma_lives((AppModel { pending_mark_seen: None, ..s }).with_req_id(), account, at);
}

// ── Mailboxes and pages ─────────────────────────────────────────────────────

/// Opening a mailbox asks its account for the mailbox's first page, under a
/// request that is the only one still wanted. Nothing is selected or open in it
/// yet. The list and the search of another account do not stay on screen; those
/// of the same account do until the page comes.
pub proof fn law_opening_a_mailbox_asks_for_its_first_page(s: AppModel, account: Text, at: int, mailbox: Text)
    requires
        lives_at(s, account, at),
        s.next_req_id < u64::MAX,
    ensures
        ({
            let t = s.activated(account, mailbox);
            let switching = s.active != Some(account);
            &&& t.active == Some(account) && t.selected_mailbox == mailbox && t.current_page == 1
                && t.total_pages == 1
            &&& t.selected_uid is None && t.selected_uids == Set::<u32>::empty() && t.select_anchor is None
                && t.pending_mark_seen is None && !t.headers_stale
            &&& t.current_headers_req == s.next_req_id + 1 && t.next_req_id == s.next_req_id + 1
            &&& t.effects == (if switching {
                s.effects.push(EffectModel::ShowPage(seq![]))
            } else {
                s.effects
            }).push(
                EffectModel::Imap {
                    account,
                    cmd: ImapCommandModel::FetchHeaders {
                        mailbox,
                        page: 1,
                        req_id: t.current_headers_req,
                    },
                },
            )
            &&& switching ==> t.headers.len() == 0 && t.search_results is None && t.search_query.len()
                == 0 && t.search_origins.len() == 0 && t.current_attachments.len() == 0
            &&& !switching ==> t.headers == s.headers && t.search_results == s.search_results
                && t.search_query == s.search_query && t.search_origins == s.search_origins
            &&& !switching ==> t.current_attachments == s.current_attachments
            &&& t.current_sender is None && t.current_message_html.len() == 0
            &&& t == (AppModel {
                active: t.active,
                selected_mailbox: t.selected_mailbox,
                current_page: t.current_page,
                total_pages: t.total_pages,
                selected_uid: t.selected_uid,
                selected_uids: t.selected_uids,
                select_anchor: t.select_anchor,
                pending_mark_seen: t.pending_mark_seen,
                headers_stale: t.headers_stale,
                current_headers_req: t.current_headers_req,
                next_req_id: t.next_req_id,
                effects: t.effects,
                headers: t.headers,
                search_results: t.search_results,
                search_query: t.search_query,
                search_origins: t.search_origins,
                current_attachments: t.current_attachments,
                current_sender: t.current_sender,
                current_message_html: t.current_message_html,
                ..s
            })
        }),
{
    reveal(AppModel::activated);
    lemma_lives(s, account, at);
    let t = s.activated(account, mailbox);
    assert(t.accounts == s.accounts);
    lemma_lives(AppModel { accounts: s.accounts, ..t }, account, at);
}

/// Turning the page asks the account shown for the next or the previous page of
/// the open mailbox, under a request that is the only one still wanted. There is
/// no page before the first or behind the last.
pub proof fn law_turning_pages_asks_for_the_neighbouring_page(s: AppModel, account: Text, at: int)
    requires
        shows(s, account, at),
        s.next_req_id < u64::MAX,
    ensures
        s.current_page < s.total_pages ==> s.page_forward() == (AppModel {
            current_page: (s.current_page + 1) as u32,
            current_headers_req: request(s, 0),
            next_req_id: request(s, 0),
            effects: s.effects.push(
                EffectModel::Imap {
                    account,
                    cmd: ImapCommandModel::FetchHeaders {
                        mailbox: s.selected_mailbox,
                        page: (s.current_page + 1) as u32,
                        req_id: request(s, 0),
                    },
                },
            ),
            ..s
        }),
        s.current_page > 1 ==> s.page_back() == (AppModel {
            current_page: (s.current_page - 1) as u32,
            current_headers_req: request(s, 0),
            next_req_id: request(s, 0),
            effects: s.effects.push(
                EffectModel::Imap {
                    account,
                    cmd: ImapCommandModel::FetchHeaders {
                        mailbox: s.selected_mailbox,
                        page: (s.current_page - 1) as u32,
                        req_id: request(s, 0),
                    },
                },
            ),
            ..s
        }),
        s.current_page >= s.total_pages ==> s.page_forward() == s,
        s.current_page <= 1 ==> s.page_back() == s,
{
    lemma_lives(s, account, at);
    lemma_lives(
        (AppModel { current_page: (s.current_page + 1) as u32, ..s }).with_req_id(),
        account,
        at,
    );
    lemma_lives(
        (AppModel { current_page: (s.current_page - 1) as u32, ..s }).with_req_id(),
        account,
        at,
    );
}

// ── Searching ───────────────────────────────────────────────────────────────

/// A search looks in the open mailbox of the account shown, or in every mailbox
/// of every account where that is asked for, for what was typed, and changes
/// nothing else. Without an account there is nothing to look in.
pub proof fn law_a_search_looks_where_it_was_told_to(s: AppModel, query: Text)
    ensures
        s.search_all_accounts ==> s.searched(Some(query)) == (AppModel {
            effects: s.effects.push(
                EffectModel::Db(DbCommandModel::Search { account_id: None, query, mailbox: None }),
            ),
            ..s
        }),
        !s.search_all_accounts && s.active is Some ==> s.searched(Some(query)) == (AppModel {
            effects: s.effects.push(
                EffectModel::Db(
                    DbCommandModel::Search {
                        account_id: Some(s.active->0),
                        query,
                        mailbox: Some(s.selected_mailbox),
                    },
                ),
            ),
            ..s
        }),
        !s.search_all_accounts && s.active is None ==> s.searched(Some(query)) == s,
{
}

/// Leaving a search drops its results and shows the list again, which is asked
/// for anew, from its first page, exactly if opening a result made it stale.
pub proof fn law_leaving_a_search_shows_the_list_again(s: AppModel, account: Text, at: int)
    requires
        shows(s, account, at),
        s.next_req_id < u64::MAX,
    ensures
        s.searched(None) == (AppModel { search_query: s.search_query, ..s.search_cleared() }),
        s.search_cleared().search_query.len() == 0,
        ({
            let t = s.searched(None);
            &&& t.search_results is None && t.search_origins.len() == 0 && !t.headers_stale
            &&& t.shown_list() == s.headers
            &&& !s.headers_stale ==> t.effects == s.effects && t.next_req_id == s.next_req_id
            &&& s.headers_stale ==> t.current_headers_req == s.next_req_id + 1 && t.effects
                == s.effects.push(
                EffectModel::Imap {
                    account,
                    cmd: ImapCommandModel::FetchHeaders {
                        mailbox: s.selected_mailbox,
                        page: 1,
                        req_id: t.current_headers_req,
                    },
                },
            )
        }),
{
    let left = AppModel { search_results: None, search_origins: seq![], headers_stale: false, ..s };
    lemma_lives(left.with_req_id(), account, at);
    lemma_lives((AppModel { search_query: seq![], ..left }).with_req_id(), account, at);
}

/// While there are search results they are on screen, else the open mailbox.
pub proof fn law_results_take_the_place_of_the_list(s: AppModel)
    ensures
        s.search_results matches Some(results) ==> s.shown_list() == results && s.list_title()
            == "Search Results"@,
        s.search_results is None ==> s.shown_list() == s.headers && s.list_title()
            == s.selected_mailbox,
{
}

/// Exporting asks the account shown for that very message of the open mailbox,
/// into the file that was chosen, and says so.
pub proof fn law_exporting_asks_for_the_message(s: AppModel, account: Text, at: int, uid: u32, path: Text)
    requires
        shows(s, account, at),
    ensures
        s.exported(uid, path) == (AppModel {
            status: "Exporting message to "@ + path + "..."@,
            effects: s.effects.push(
                EffectModel::Imap {
                    account,
                    cmd: ImapCommandModel::ExportMessage { mailbox: s.selected_mailbox, uid, path },
                },
            ),
            ..s
        }),
{
    lemma_lives(s.with_status("Exporting message to "@ + path + "..."@), account, at);
}

// ── Shortcuts ───────────────────────────────────────────────────────────────

/// No shortcut.
pub open spec fn no_keys() -> Keys {
    Keys {
        focus_search: false,
        compose: false,
        next: false,
        prev: false,
        enter: false,
        reply: false,
        archive: false,
        star: false,
        delete: false,
    }
}

/// Which key means what: with Ctrl, F looks for something and N writes a new
/// message; without it, J and K step, Enter opens, R replies, A archives, F
/// stars, and Delete and Backspace delete. While the search box has the caret no
/// key means anything.
pub proof fn law_each_key_has_its_meaning(focused: bool, ctrl: bool, p: Pressed)
    ensures
        ({
            let keys = app_keys::shortcuts_of(focused, ctrl, p);
            &&& focused ==> keys == no_keys()
            &&& !focused && ctrl ==> keys == (Keys {
                focus_search: p.f,
                compose: p.n,
                ..no_keys()
            })
            &&& !focused && !ctrl ==> keys == (Keys {
                next: p.j,
                prev: p.k,
                enter: p.enter,
                reply: p.r,
                archive: p.a,
                star: p.f,
                delete: p.delete || p.backspace,
                ..no_keys()
            })
        }),
{
}

/// Each shortcut by itself does what its name says to the targets of a bulk
/// action or to the open message, and nothing else.
pub proof fn law_each_shortcut_does_its_own_work(
    s: AppModel,
    senders: Seq<SenderModel>,
    open_trusted: bool,
    now: u64,
)
    ensures
        s.on_keys(Keys { archive: true, ..no_keys() }, senders, open_trusted, now) == s.archived(
            s.targets(),
        ),
        s.on_keys(Keys { delete: true, ..no_keys() }, senders, open_trusted, now) == s.trashed(
            s.targets(),
        ),
        s.on_keys(Keys { star: true, ..no_keys() }, senders, open_trusted, now)
            == s.stars_toggled_on(s.targets()),
        s.on_keys(Keys { focus_search: true, ..no_keys() }, senders, open_trusted, now) == (AppModel {
            effects: s.effects.push(EffectModel::FocusSearch),
            ..s
        }),
        s.on_keys(Keys { compose: true, ..no_keys() }, senders, open_trusted, now)
            == s.new_message(),
        s.on_keys(Keys { reply: true, ..no_keys() }, senders, open_trusted, now) == (
        match s.selected_header() {
            Some(header) => s.replying(header, seq![]),
            None => s,
        }),
        s.on_keys(no_keys(), senders, open_trusted, now) == s,
{
    reveal(AppModel::keys_begun);
    reveal(AppModel::keys_opened);
    reveal(AppModel::keys_acted);
    reveal(AppModel::key_search);
    reveal(AppModel::key_compose);
    reveal(AppModel::key_step);
    reveal(AppModel::key_enter);
    reveal(AppModel::key_reply);
    reveal(AppModel::key_move);
    reveal(AppModel::key_star);
}

/// Where the open message stands in the list on screen: the first of its UID, and
/// among search results the first of them that lives in the open mailbox of the
/// account shown.
pub open spec fn is_open_at(s: AppModel, i: int) -> bool {
    &&& 0 <= i < s.shown_list().len()
    &&& s.selected_uid == Some(s.shown_list()[i].uid)
    &&& s.search_results is Some ==> i < s.search_origins.len() && s.active is Some
        && s.search_origins[i] == (s.active->0, s.selected_mailbox)
}

proof fn lemma_open_at(s: AppModel, i: int)
    requires
        is_open_at(s, i),
        forall|j: int| 0 <= j < i ==> !is_open_at(s, j),
    ensures
        s.open_index() == i,
{
    let uid = s.selected_uid->0;
    match s.search_results {
        Some(results) => {
            lemma_hit_is_first(s, results, uid);
            app::lemma_open_hit_index(s, results, uid);
            let k = app::open_hit_index(s, results, uid);
            if k >= 0 && k < i {
                assert(is_open_at(s, k));
            }
            assert(results[i].uid == uid && s.in_open_context(i));
        },
        None => {
            selection::lemma_uid_index(s.headers, uid);
            let k = selection::uid_index(s.headers, uid);
            if k >= 0 && k < i {
                assert(is_open_at(s, k));
            }
            assert(s.headers[i].uid == uid);
        },
    }
}

proof fn lemma_hit_is_first(s: AppModel, results: Seq<MailHeaderModel>, uid: u32)
    ensures
        forall|i: int|
            0 <= i < results.len() && (#[trigger] results[i]).uid == uid && s.in_open_context(i)
                ==> 0 <= app::open_hit_index(s, results, uid) <= i,
    decreases results.len(),
{
    if results.len() > 0 {
        lemma_hit_is_first(s, results.drop_last(), uid);
        app::lemma_open_hit_index(s, results.drop_last(), uid);
        assert forall|i: int|
            0 <= i < results.len() && (#[trigger] results[i]).uid == uid && s.in_open_context(
                i,
            ) implies 0 <= app::open_hit_index(s, results, uid) <= i by {
            if i < results.len() - 1 {
                assert(results.drop_last()[i] == results[i]);
            }
        }
    }
}

/// The next and previous message are the neighbours of the open one in the list
/// on screen; at the ends it stays where it is, and where none is open it starts
/// with the first. The message that is stepped to is selected alone.
pub proof fn law_stepping_goes_to_the_neighbour(s: AppModel, i: int)
    requires
        is_open_at(s, i),
        forall|j: int| 0 <= j < i ==> !is_open_at(s, j),
    ensures
        i + 1 < s.shown_list().len() ==> s.step_index(true) == i + 1,
        i + 1 == s.shown_list().len() ==> s.step_index(true) == i,
        i > 0 ==> s.step_index(false) == i - 1,
        i == 0 ==> s.step_index(false) == 0,
        (AppModel { selected_uid: None, ..s }).step_index(true) == 0,
        (AppModel { selected_uid: None, ..s }).step_index(false) == 0,
{
    lemma_open_at(s, i);
}

/// Stepping opens the message that is stepped to, under the sender it is listed
/// with.
pub proof fn law_stepping_opens_what_it_steps_to(
    s: AppModel,
    next: bool,
    senders: Seq<SenderModel>,
    open_trusted: bool,
    now: u64,
)
    requires
        s.shown_list().len() > 0,
        senders.len() == s.shown_list().len(),
    ensures
        ({
            let i = s.step_index(next);
            let uid = s.shown_list()[i].uid;
            let keys = if next {
                Keys { next: true, ..no_keys() }
            } else {
                Keys { prev: true, ..no_keys() }
            };
            &&& 0 <= i < s.shown_list().len()
            &&& s.on_keys(keys, senders, open_trusted, now) == (AppModel {
                selected_uids: Set::empty(),
                select_anchor: Some(uid),
                ..s
            }).opened_at(i, senders[i].address, senders[i].trusted, now)
        }),
{
    reveal(AppModel::keys_begun);
    reveal(AppModel::keys_opened);
    reveal(AppModel::keys_acted);
    reveal(AppModel::key_search);
    reveal(AppModel::key_compose);
    reveal(AppModel::key_step);
    reveal(AppModel::key_enter);
    reveal(AppModel::key_reply);
    reveal(AppModel::key_move);
    reveal(AppModel::key_star);
    if let Some(uid) = s.selected_uid {
        selection::lemma_uid_index(s.headers, uid);
        if let Some(results) = s.search_results {
            app::lemma_open_hit_index(s, results, uid);
        }
    }
}

/// The header of the open message is that of the first message with its UID in
/// the open mailbox: among the search results, else in the list.
pub proof fn law_the_open_message_has_its_own_header(s: AppModel, i: int)
    requires
        is_open_at(s, i),
        forall|j: int| 0 <= j < i ==> !is_open_at(s, j),
    ensures
        s.selected_header() == Some(s.shown_list()[i]),
{
    lemma_open_at(s, i);
}

} // verus!
