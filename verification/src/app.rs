//! The program's own operations: notices, commands to accounts, switching and
//! dropping accounts, opening messages, and actions on the selection.

use vstd::prelude::*;
use vstd::string::*;
use crate::compose;
use crate::db::{DbCommand, DbCommandModel};
use crate::events::{ImapCommand, ImapCommandModel};
use crate::imap;
use crate::imap::{MailHeader, MailHeaderModel, SpecialUse};
use crate::mailboxes;
use crate::selection;
use crate::state::{AccountModel, AccountView, AppModel, Banner, BannerModel, Effect, EffectModel, EsMailApp};
use crate::text;
use crate::text::Text;

verus! {

broadcast use vstd::string::group_string_axioms;

/// Where a sent message goes when the account has no Sent folder.
pub const SENT_MAILBOX: &'static str = "Sent";

/// Where a deleted message goes when the account has no Trash folder.
pub const TRASH_MAILBOX: &'static str = "Trash";

/// Where an archived message goes when the account has no Archive folder.
pub const ARCHIVE_MAILBOX: &'static str = "Archive";

/// How long a message stays open before it is marked read, in milliseconds.
pub const MARK_SEEN_DELAY: u64 = 1200;

// ── Lookup ──────────────────────────────────────────────────────────────────

/// The position of the first account with an id, or -1.
pub open spec fn account_index(accounts: Seq<AccountModel>, id: Text) -> int
    decreases accounts.len(),
{
    if accounts.len() == 0 {
        -1
    } else {
        let before = account_index(accounts.drop_last(), id);
        if before >= 0 {
            before
        } else if accounts.last().id == id {
            accounts.len() - 1
        } else {
            -1
        }
    }
}

/// What [`account_index`] finds.
pub proof fn lemma_account_index(accounts: Seq<AccountModel>, id: Text)
    ensures
        -1 <= account_index(accounts, id) < accounts.len(),
        account_index(accounts, id) >= 0 ==> accounts[account_index(accounts, id)].id == id,
        account_index(accounts, id) < 0 ==> forall|i: int|
            0 <= i < accounts.len() ==> (#[trigger] accounts[i]).id != id,
    decreases accounts.len(),
{
    if accounts.len() > 0 {
        lemma_account_index(accounts.drop_last(), id);
        if account_index(accounts, id) < 0 {
            assert forall|i: int| 0 <= i < accounts.len() implies (#[trigger] accounts[i]).id
                != id by {
                if i < accounts.len() - 1 {
                    assert(accounts.drop_last()[i] == accounts[i]);
                }
            }
        }
    }
}

proof fn lemma_account_index_stays(accounts: Seq<AccountModel>, id: Text, n: int)
    requires
        0 <= n <= accounts.len(),
        account_index(accounts.take(n), id) >= 0,
    ensures
        account_index(accounts, id) == account_index(accounts.take(n), id),
    decreases accounts.len(),
{
    if n == accounts.len() {
        assert(accounts.take(n) =~= accounts);
    } else {
        assert(accounts.drop_last().take(n) =~= accounts.take(n));
        lemma_account_index_stays(accounts.drop_last(), id, n);
    }
}

/// Changing an account without its id leaves every account where it is found.
pub proof fn lemma_account_index_update(
    accounts: Seq<AccountModel>,
    i: int,
    view: AccountModel,
    id: Text,
)
    requires
        0 <= i < accounts.len(),
        view.id == accounts[i].id,
    ensures
        account_index(accounts.update(i, view), id) == account_index(accounts, id),
    decreases accounts.len(),
{
    let after = accounts.update(i, view);
    if i == accounts.len() - 1 {
        assert(after.drop_last() =~= accounts.drop_last());
    } else {
        assert(after.drop_last() =~= accounts.drop_last().update(i, view));
        lemma_account_index_update(accounts.drop_last(), i, view, id);
    }
}

/// Finds an account by its id.
pub fn find_account(accounts: &Vec<AccountView>, id: &str) -> (r: Option<usize>)
    ensures
        match r {
            Some(i) => i < accounts@.len() && account_index(accounts.deep_view(), id@) == i,
            None => account_index(accounts.deep_view(), id@) == -1,
        },
{
    let ghost all = accounts.deep_view();
    let mut i: usize = 0;
    assert(account_index(all.take(0), id@) == -1);
    while i < accounts.len()
        invariant
            i <= accounts@.len(),
            all == accounts.deep_view(),
            account_index(all.take(i as int), id@) == -1,
        decreases accounts@.len() - i,
    {
        assert(all.take(i + 1).drop_last() =~= all.take(i as int));
        if text::same(accounts[i].id.as_str(), id) {
            proof {
                assert(account_index(all.take(i + 1), id@) == i);
                lemma_account_index_stays(all, id@, i + 1);
            }
            return Some(i);
        }
        i += 1;
    }
    assert(all.take(all.len() as int) =~= all);
    None
}

/// Milliseconds that have passed since `at`.
pub open spec fn elapsed(now: u64, at: u64) -> int {
    if now >= at {
        now - at
    } else {
        0
    }
}

/// Milliseconds that have passed since `at`.
pub fn elapsed_ms(now: u64, at: u64) -> (r: u64)
    ensures
        r == elapsed(now, at),
{
    if now >= at {
        now - at
    } else {
        0
    }
}

impl AppModel {
    /// The position of an account, or -1.
    pub open spec fn index_of(self, id: Text) -> int {
        account_index(self.accounts, id)
    }

    /// Whether an account is connected or connecting.
    pub open spec fn has_account(self, id: Text) -> bool {
        self.index_of(id) >= 0
    }

    /// The state of an account.
    pub open spec fn account(self, id: Text) -> AccountModel {
        self.accounts[self.index_of(id)]
    }

    /// Whether the message list shows this account.
    pub open spec fn is_active(self, id: Text) -> bool {
        self.active == Some(id)
    }

    /// Whether `n` more ids of each kind can be handed out.
    pub open spec fn has_ids(self, n: nat) -> bool {
        &&& self.next_req_id + n <= u64::MAX
        &&& self.next_banner_id + n <= u64::MAX
        &&& self.next_compose_id + n <= u64::MAX
    }

    /// The account's name, or its id if it is not connected.
    pub open spec fn label(self, id: Text) -> Text {
        if self.has_account(id) {
            self.account(id).label
        } else {
            id
        }
    }

    // ── Steps ───────────────────────────────────────────────────────────────

    /// One more thing to do outside.
    pub open spec fn emit(self, effect: EffectModel) -> AppModel {
        AppModel { effects: self.effects.push(effect), ..self }
    }

    /// Another status text.
    pub open spec fn with_status(self, status: Text) -> AppModel {
        AppModel { status, ..self }
    }

    /// One more error notice.
    pub open spec fn banner(self, message: Text) -> AppModel {
        let id = (self.next_banner_id + 1) as u64;
        AppModel {
            next_banner_id: id,
            banners: self.banners.push(BannerModel { id, message }),
            ..self
        }
    }

    /// One more error notice of an account, which is named if there are others.
    pub open spec fn account_banner(self, account: Text, message: Text) -> AppModel {
        if self.accounts.len() > 1 {
            self.banner(self.label(account) + ": "@ + message)
        } else {
            self.banner(message)
        }
    }

    /// A command to an account; dropped if the account is gone.
    pub open spec fn imap_to(self, account: Text, cmd: ImapCommandModel) -> AppModel {
        if self.has_account(account) {
            self.emit(EffectModel::Imap { account, cmd })
        } else {
            self
        }
    }

    /// A command to the account that is shown.
    pub open spec fn imap(self, cmd: ImapCommandModel) -> AppModel {
        match self.active {
            Some(account) => self.imap_to(account, cmd),
            None => self,
        }
    }

    /// Another state of the account at position `i`.
    pub open spec fn with_account_at(self, i: int, view: AccountModel) -> AppModel {
        AppModel { accounts: self.accounts.update(i, view), ..self }
    }

    /// One more request id.
    pub open spec fn with_req_id(self) -> AppModel {
        AppModel { next_req_id: (self.next_req_id + 1) as u64, ..self }
    }

    /// A page of headers is asked for; only its reply is wanted from now on.
    pub open spec fn headers_wanted(self, mailbox: Text, page: u32) -> AppModel {
        let s = self.with_req_id();
        let req_id = s.next_req_id;
        (AppModel { current_headers_req: req_id, ..s }).imap(
            ImapCommandModel::FetchHeaders { mailbox, page, req_id },
        )
    }

    /// A body is asked for; only its reply is wanted from now on.
    pub open spec fn body_wanted(self, mailbox: Text, uid: u32) -> AppModel {
        let s = self.with_req_id();
        let req_id = s.next_req_id;
        (AppModel { current_body_req: req_id, ..s }).imap(
            ImapCommandModel::FetchBody { mailbox, uid, req_id },
        )
    }

    /// The message list moves to an account and a mailbox. What belonged to
    /// another account's list is dropped.
    #[verifier::opaque]
    pub open spec fn activated(self, account: Text, mailbox: Text) -> AppModel {
        let switching = !self.is_active(account);
        let s = AppModel { active: Some(account), headers_stale: false, ..self };
        let s = if switching {
            (AppModel {
                search_query: seq![],
                search_results: None,
                search_origins: seq![],
                headers: seq![],
                current_attachments: seq![],
                ..s
            }).emit(EffectModel::ShowPage(seq![]))
        } else {
            s
        };
        (AppModel {
            selected_mailbox: mailbox,
            selected_uid: None,
            selected_uids: Set::empty(),
            select_anchor: None,
            pending_mark_seen: None,
            current_sender: None,
            current_message_html: seq![],
            current_page: 1,
            total_pages: 1,
            ..s
        }).headers_wanted(mailbox, 1)
    }
}

/// The accounts without one.
pub open spec fn without_account(accounts: Seq<AccountModel>, id: Text) -> Seq<AccountModel>
    decreases accounts.len(),
{
    if accounts.len() == 0 {
        accounts
    } else if accounts.last().id == id {
        without_account(accounts.drop_last(), id)
    } else {
        without_account(accounts.drop_last(), id).push(accounts.last())
    }
}

/// The position of the first connected account, or -1.
pub open spec fn connected_index(accounts: Seq<AccountModel>) -> int
    decreases accounts.len(),
{
    if accounts.len() == 0 {
        -1
    } else {
        let before = connected_index(accounts.drop_last());
        if before >= 0 {
            before
        } else if accounts.last().state is Connected {
            accounts.len() - 1
        } else {
            -1
        }
    }
}

impl AppModel {
    /// No account is shown, and nothing of one.
    #[verifier::opaque]
    pub open spec fn nothing_shown(self) -> AppModel {
        (AppModel {
            active: None,
            headers: seq![],
            search_results: None,
            search_origins: seq![],
            headers_stale: false,
            selected_uid: None,
            selected_uids: Set::empty(),
            select_anchor: None,
            pending_mark_seen: None,
            current_sender: None,
            current_message_html: seq![],
            current_attachments: seq![],
            ..self
        }).emit(EffectModel::ShowPage(seq![]))
    }

    /// An account is logged out and dropped. If it was the one shown, the next
    /// connected account takes over.
    pub open spec fn dropped(self, account: Text) -> AppModel {
        let label = self.label(account);
        let accounts = without_account(self.accounts, account);
        let s = AppModel {
            accounts,
            search_all_accounts: self.search_all_accounts && accounts.len() >= 2,
            ..self
        };
        let s = if self.is_active(account) {
            let next = connected_index(accounts);
            if next >= 0 {
                s.nothing_shown().activated(accounts[next].id, "INBOX"@)
            } else {
                s.nothing_shown()
            }
        } else {
            s
        };
        s.with_status("Logged out of "@ + label)
    }
}

// ── Executable steps ────────────────────────────────────────────────────────

impl EsMailApp {
    /// One more thing to do outside.
    pub fn emit(&mut self, effect: Effect)
        ensures
            final(self)@ == old(self)@.emit(effect@),
    {
        let ghost held = self.effects.deep_view();
        self.effects.push(effect);
        assert(self.effects.deep_view() =~= held.push(effect@));
    }

    /// Hands over what is to be done outside, oldest first.
    pub fn take_effects(&mut self) -> (r: Vec<Effect>)
        ensures
            r.deep_view() == old(self)@.effects,
            final(self)@ == (AppModel { effects: seq![], ..old(self)@ }),
    {
        let mut r: Vec<Effect> = Vec::new();
        std::mem::swap(&mut r, &mut self.effects);
        assert(self.effects.deep_view() =~= seq![]);
        r
    }

    /// Whether `n` more ids of each kind can be handed out.
    pub fn ids_left(&self, n: u64) -> (r: bool)
        ensures
            r == self@.has_ids(n as nat),
    {
        self.next_req_id <= u64::MAX - n && self.next_banner_id <= u64::MAX - n
            && self.next_compose_id <= u64::MAX - n
    }

    /// Adds an error notice.
    pub fn push_banner(&mut self, message: String)
        requires
            old(self)@.has_ids(1),
        ensures
            final(self)@ == old(self)@.banner(message@),
    {
        let ghost held = self.banners.deep_view();
        self.next_banner_id = self.next_banner_id + 1;
        let b = Banner { id: self.next_banner_id, message };
        let ghost bm = b@;
        self.banners.push(b);
        assert(self.banners.deep_view() =~= held.push(bm));
    }

    /// Removes an error notice.
    pub fn dismiss_banner(&mut self, id: u64)
        ensures
            final(self)@ == (AppModel { banners: without_banner(old(self)@.banners, id), ..old(self)@ }),
    {
        let ghost all = self.banners@;
        let mut left: Vec<Banner> = Vec::new();
        std::mem::swap(&mut left, &mut self.banners);
        let mut kept: Vec<Banner> = Vec::new();
        let ghost mut n: int = 0;
        let ghost models = old(self).banners.deep_view();
        assert(left@ =~= all.skip(0));
        assert(kept.deep_view() =~= without_banner(models.take(0), id));
        while left.len() > 0
            invariant
                0 <= n <= all.len(),
                models.len() == all.len(),
                forall|i: int| 0 <= i < all.len() ==> #[trigger] models[i] == all[i]@,
                left@ == all.skip(n),
                kept.deep_view() == without_banner(models.take(n), id),
            decreases left@.len(),
        {
            let ghost held = kept.deep_view();
            let b = left.remove(0);
            assert(b == all[n]);
            assert(left@ =~= all.skip(n + 1));
            assert(models.take(n + 1).drop_last() =~= models.take(n));
            assert(models.take(n + 1).last() == b@);
            if b.id != id {
                kept.push(b);
                assert(kept.deep_view() =~= held.push(b@));
            }
            proof {
                n = n + 1;
            }
        }
        assert(models.take(n) =~= models);
        self.banners = kept;
    }

    /// The account's name, or its id if it is not connected.
    pub fn account_label(&self, account: &str) -> (r: String)
        ensures
            r@ == self@.label(account@),
    {
        match find_account(&self.accounts, account) {
            Some(i) => self.accounts[i].label.clone(),
            None => account.to_owned(),
        }
    }

    /// Adds an error notice that belongs to one account.
    pub fn push_account_banner(&mut self, account: &str, message: String)
        requires
            old(self)@.has_ids(1),
        ensures
            final(self)@ == old(self)@.account_banner(account@, message@),
    {
        if self.accounts.len() > 1 {
            let mut full = self.account_label(account);
            full.append(": ");
            full.append(message.as_str());
            self.push_banner(full);
        } else {
            self.push_banner(message);
        }
    }

    /// Sends a command to one account; dropped if that account is gone.
    pub fn send_imap_to(&mut self, account: &str, cmd: ImapCommand)
        ensures
            final(self)@ == old(self)@.imap_to(account@, cmd@),
    {
        if find_account(&self.accounts, account).is_some() {
            self.emit(Effect::Imap { account: account.to_owned(), cmd });
        }
    }

    /// Sends a command to the account that is shown.
    pub fn send_imap(&mut self, cmd: ImapCommand)
        ensures
            final(self)@ == old(self)@.imap(cmd@),
    {
        match compose::copy_option(&self.active) {
            Some(account) => {
                self.send_imap_to(account.as_str(), cmd);
            },
            None => {},
        }
    }

    /// A fresh request id.
    fn fresh_req_id(&mut self) -> (r: u64)
        requires
            old(self)@.has_ids(1),
        ensures
            final(self)@ == old(self)@.with_req_id(),
            r == final(self)@.next_req_id,
    {
        self.next_req_id = self.next_req_id + 1;
        self.next_req_id
    }

    /// Asks for a page of headers; only its reply is accepted from now on.
    pub fn fetch_headers(&mut self, mailbox: String, page: u32)
        requires
            old(self)@.has_ids(1),
        ensures
            final(self)@ == old(self)@.headers_wanted(mailbox@, page),
    {
        let req_id: u64 = self.fresh_req_id();
        self.current_headers_req = req_id;
        self.send_imap(ImapCommand::FetchHeaders { mailbox, page, req_id });
    }

    /// Asks for a body; only its reply is accepted from now on.
    pub fn fetch_body(&mut self, mailbox: String, uid: u32)
        requires
            old(self)@.has_ids(1),
        ensures
            final(self)@ == old(self)@.body_wanted(mailbox@, uid),
    {
        let req_id: u64 = self.fresh_req_id();
        self.current_body_req = req_id;
        self.send_imap(ImapCommand::FetchBody { mailbox, uid, req_id });
    }

    /// Forgets the messages that a search found.
    fn forget_search(&mut self)
        ensures
            final(self)@ == (AppModel {
                search_results: None,
                search_origins: seq![],
                ..old(self)@
            }),
    {
        self.search_results = None;
        self.search_origins = Vec::new();
        assert(self.search_origins.deep_view() =~= seq![]);
    }

    /// Forgets the list and the open message's attachments.
    fn forget_messages(&mut self)
        ensures
            final(self)@ == (AppModel {
                headers: seq![],
                current_attachments: seq![],
                ..old(self)@
            }),
    {
        self.headers = Vec::new();
        self.current_attachments = Vec::new();
        assert(self.headers.deep_view() =~= seq![]);
        assert(self.current_attachments.deep_view() =~= seq![]);
    }

    /// Forgets what is selected, and of the open message who sent it and what
    /// it says.
    fn forget_selection(&mut self)
        ensures
            final(self)@ == (AppModel {
                selected_uid: None,
                selected_uids: Set::empty(),
                select_anchor: None,
                pending_mark_seen: None,
                current_sender: None,
                current_message_html: seq![],
                ..old(self)@
            }),
    {
        self.selected_uid = None;
        self.selected_uids.clear();
        self.select_anchor = None;
        self.pending_mark_seen = None;
        self.forget_open();
    }

    /// No message is open: there is no sender and nothing to quote.
    pub(crate) fn forget_open(&mut self)
        ensures
            final(self)@ == (AppModel {
                current_sender: None,
                current_message_html: seq![],
                ..old(self)@
            }),
    {
        self.current_sender = None;
        self.current_message_html = String::new();
        assert(self.current_message_html@ =~= seq![]);
    }

    /// Shows a page in the reading pane.
    pub fn show_page(&mut self, html: String)
        ensures
            final(self)@ == old(self)@.emit(EffectModel::ShowPage(html@)),
    {
        self.emit(Effect::ShowPage(html));
    }

    /// Makes an account the one that the message list and the reading pane
    /// show, opens a mailbox in it and asks for its first page.
    pub fn activate(&mut self, account: &str, mailbox: String)
        requires
            old(self)@.has_ids(1),
        ensures
            final(self)@ == old(self)@.activated(account@, mailbox@),
    {
        reveal(AppModel::activated);
        let switching = match &self.active {
            Some(a) => !text::same(a.as_str(), account),
            None => true,
        };
        self.active = Some(account.to_owned());
        self.headers_stale = false;
        if switching {
            self.search_query = String::new();
            assert(self.search_query@ =~= seq![]);
            self.forget_search();
            self.forget_messages();
            let empty = String::new();
            assert(empty@ =~= seq![]);
            self.show_page(empty);
        }
        self.selected_mailbox = mailbox.clone();
        self.forget_selection();
        self.current_page = 1;
        self.total_pages = 1;
        self.fetch_headers(mailbox, 1);
    }

    /// Shows no account, and nothing of one.
    fn show_nothing(&mut self)
        ensures
            final(self)@ == old(self)@.nothing_shown(),
            final(self)@.has_ids(1) == old(self)@.has_ids(1),
    {
        reveal(AppModel::nothing_shown);
        self.active = None;
        self.forget_search();
        self.headers_stale = false;
        self.forget_selection();
        self.forget_messages();
        let empty = String::new();
        assert(empty@ =~= seq![]);
        self.show_page(empty);
    }

    /// Logs an account out and drops it, and leaves every other account alone.
    pub fn disconnect_account(&mut self, account: &str)
        requires
            old(self)@.has_ids(1),
        ensures
            final(self)@ == old(self)@.dropped(account@),
    {
        let ghost start = self@;
        let label = self.account_label(account);
        let shown = match &self.active {
            Some(a) => text::same(a.as_str(), account),
            None => false,
        };
        self.remove_account_view(account);
        if self.accounts.len() < 2 {
            self.search_all_accounts = false;
        }
        let ghost kept = AppModel {
            accounts: without_account(start.accounts, account@),
            search_all_accounts: start.search_all_accounts && without_account(
                start.accounts,
                account@,
            ).len() >= 2,
            ..start
        };
        assert(self@ == kept);
        if shown {
            let next = match first_connected(&self.accounts) {
                Some(i) => Some(self.accounts[i].id.clone()),
                None => None,
            };
            self.show_nothing();
            if let Some(id) = next {
                self.activate(id.as_str(), "INBOX".to_owned());
            }
        }
        let mut status = "Logged out of ".to_owned();
        status.append(label.as_str());
        self.set_status(status);
    }

    /// Shows another status text.
    pub fn set_status(&mut self, status: String)
        ensures
            final(self)@ == old(self)@.with_status(status@),
    {
        self.status = status;
    }

    /// Takes an account out of the list.
    fn remove_account_view(&mut self, account: &str)
        ensures
            final(self)@ == (AppModel {
                accounts: without_account(old(self)@.accounts, account@),
                ..old(self)@
            }),
    {
        let ghost all = self.accounts@;
        let ghost models = self.accounts.deep_view();
        let mut left: Vec<AccountView> = Vec::new();
        std::mem::swap(&mut left, &mut self.accounts);
        let mut kept: Vec<AccountView> = Vec::new();
        let ghost mut n: int = 0;
        assert(left@ =~= all.skip(0));
        assert(kept.deep_view() =~= without_account(models.take(0), account@));
        while left.len() > 0
            invariant
                0 <= n <= all.len(),
                models.len() == all.len(),
                forall|i: int| 0 <= i < all.len() ==> #[trigger] models[i] == all[i]@,
                left@ == all.skip(n),
                kept.deep_view() == without_account(models.take(n), account@),
            decreases left@.len(),
        {
            let ghost held = kept.deep_view();
            let v = left.remove(0);
            assert(v == all[n]);
            assert(left@ =~= all.skip(n + 1));
            assert(models.take(n + 1).drop_last() =~= models.take(n));
            assert(models.take(n + 1).last() == v@);
            if !text::same(v.id.as_str(), account) {
                kept.push(v);
                assert(kept.deep_view() =~= held.push(v@));
            }
            proof {
                n = n + 1;
            }
        }
        assert(models.take(n) =~= models);
        self.accounts = kept;
    }
}

/// The notices without one.
pub open spec fn without_banner(banners: Seq<BannerModel>, id: u64) -> Seq<BannerModel>
    decreases banners.len(),
{
    if banners.len() == 0 {
        banners
    } else if banners.last().id == id {
        without_banner(banners.drop_last(), id)
    } else {
        without_banner(banners.drop_last(), id).push(banners.last())
    }
}

/// The position of the first connected account.
fn first_connected(accounts: &Vec<AccountView>) -> (r: Option<usize>)
    ensures
        match r {
            Some(i) => i < accounts@.len() && connected_index(accounts.deep_view()) == i,
            None => connected_index(accounts.deep_view()) == -1,
        },
{
    let ghost all = accounts.deep_view();
    let mut i: usize = 0;
    assert(connected_index(all.take(0)) == -1);
    while i < accounts.len()
        invariant
            i <= accounts@.len(),
            all == accounts.deep_view(),
            connected_index(all.take(i as int)) == -1,
        decreases accounts@.len() - i,
    {
        assert(all.take(i + 1).drop_last() =~= all.take(i as int));
        assert(all.take(i + 1).last() == accounts@[i as int]@);
        let connected = match &accounts[i].state {
            crate::state::ConnState::Connected => true,
            _ => false,
        };
        if connected {
            proof {
                assert(connected_index(all.take(i + 1)) == i);
                lemma_connected_index_stays(all, i + 1);
            }
            return Some(i);
        }
        i += 1;
    }
    assert(all.take(all.len() as int) =~= all);
    None
}

proof fn lemma_connected_index_stays(accounts: Seq<AccountModel>, n: int)
    requires
        0 <= n <= accounts.len(),
        connected_index(accounts.take(n)) >= 0,
    ensures
        connected_index(accounts) == connected_index(accounts.take(n)),
    decreases accounts.len(),
{
    if n == accounts.len() {
        assert(accounts.take(n) =~= accounts);
    } else {
        assert(accounts.drop_last().take(n) =~= accounts.take(n));
        lemma_connected_index_stays(accounts.drop_last(), n);
    }
}

// ── Opening messages ────────────────────────────────────────────────────────

impl AppModel {
    /// The list that is on screen: the search results while there are any.
    pub open spec fn shown_list(self) -> Seq<MailHeaderModel> {
        match self.search_results {
            Some(results) => results,
            None => self.headers,
        }
    }

    /// Whether a message of the mailbox's list is known to be read.
    pub open spec fn listed_as_seen(self, uid: u32) -> bool {
        exists|i: int|
            0 <= i < self.headers.len() && (#[trigger] self.headers[i]).uid == uid
                && self.headers[i].is_seen()
    }

    /// Opening a message, up to asking for its text: it is selected, remote
    /// images are blocked unless its sender is trusted, and the reading pane
    /// shows that the message is being loaded. Until it is, there is nothing to
    /// quote.
    pub open spec fn opening(self, uid: u32, sender: Option<Text>, trusted: bool) -> AppModel {
        (AppModel {
            selected_uid: Some(uid),
            current_sender: sender,
            allow_remote: trusted,
            current_message_html: seq![],
            current_attachments: seq![],
            ..self
        }).emit(EffectModel::ShowPage("<i>Loading message...</i>"@))
    }

    /// The text of a search result is asked of the cache. Bodies that were
    /// asked of the server before are no longer wanted.
    pub open spec fn cached_body_wanted(self, uid: u32) -> AppModel {
        let s = self.with_req_id();
        let s = AppModel { current_body_req: s.next_req_id, ..s };
        match s.active {
            Some(account_id) => s.emit(
                EffectModel::Db(
                    DbCommandModel::FetchMail { account_id, mailbox: s.selected_mailbox, uid },
                ),
            ),
            None => s,
        }
    }

    /// A message is opened at the time `now`. An unread one is marked read
    /// later, if it stays open.
    pub open spec fn opened(
        self,
        uid: u32,
        is_search: bool,
        sender: Option<Text>,
        trusted: bool,
        now: u64,
    ) -> AppModel {
        let s = self.opening(uid, sender, trusted);
        let s = if is_search {
            s.cached_body_wanted(uid)
        } else {
            s.body_wanted(s.selected_mailbox, uid)
        };
        AppModel {
            pending_mark_seen: if self.listed_as_seen(uid) {
                None
            } else {
                Some((uid, now))
            },
            ..s
        }
    }

    /// Whether search result `i` lives in the mailbox that is open.
    pub open spec fn in_open_context(self, i: int) -> bool {
        match self.active {
            Some(active) => 0 <= i < self.search_origins.len() && self.search_origins[i] == (
                active,
                self.selected_mailbox,
            ),
            None => false,
        }
    }
}

/// The first search result with a UID that lives in the open mailbox, or -1.
pub open spec fn open_hit_index(s: AppModel, results: Seq<MailHeaderModel>, uid: u32) -> int
    decreases results.len(),
{
    if results.len() == 0 {
        -1
    } else {
        let before = open_hit_index(s, results.drop_last(), uid);
        if before >= 0 {
            before
        } else if results.last().uid == uid && s.in_open_context(results.len() - 1) {
            results.len() - 1
        } else {
            -1
        }
    }
}

impl AppModel {
    /// The header of the open message.
    pub open spec fn selected_header(self) -> Option<MailHeaderModel> {
        match self.selected_uid {
            None => None,
            Some(uid) => {
                let hit = match self.search_results {
                    Some(results) => open_hit_index(self, results, uid),
                    None => -1,
                };
                if hit >= 0 {
                    Some(self.search_results->0[hit])
                } else {
                    let i = selection::uid_index(self.headers, uid);
                    if i >= 0 {
                        Some(self.headers[i])
                    } else {
                        None
                    }
                }
            },
        }
    }

    /// Whether a message is starred, by the list that is on screen for it.
    pub open spec fn is_flagged_uid(self, uid: u32) -> bool {
        match self.search_results {
            Some(results) => exists|i: int|
                0 <= i < results.len() && (#[trigger] results[i]).uid == uid && results[i].is_flagged()
                    && self.in_open_context(i),
            None => exists|i: int|
                0 <= i < self.headers.len() && (#[trigger] self.headers[i]).uid == uid
                    && self.headers[i].is_flagged(),
        }
    }

    /// Whether there is a search result at position `i`.
    pub open spec fn has_hit(self, i: int) -> bool {
        0 <= i < self.search_origins.len() && (self.search_results matches Some(results) && i
            < results.len())
    }

    /// Search result `i` is opened. One of an account that is not connected
    /// asks for the connection instead; one that lives elsewhere first moves
    /// the message list there.
    pub open spec fn hit_opened(self, i: int, sender: Option<Text>, trusted: bool, now: u64) -> AppModel {
        if !self.has_hit(i) {
            self
        } else {
            let account = self.search_origins[i].0;
            let mailbox = self.search_origins[i].1;
            if !self.has_account(account) {
                self.banner(
                    self.label(account)
                        + " is not connected. Connect it under Settings > Accounts to open this message."@,
                )
            } else {
                let s = if self.is_active(account) && self.selected_mailbox == mailbox {
                    self
                } else {
                    AppModel {
                        headers_stale: true,
                        active: Some(account),
                        selected_mailbox: mailbox,
                        ..self
                    }
                };
                s.opened(self.search_results->0[i].uid, true, sender, trusted, now)
            }
        }
    }

    /// The search is left; a list that went stale meanwhile is asked for again.
    pub open spec fn search_left(self) -> AppModel {
        let s = AppModel {
            search_results: None,
            search_origins: seq![],
            headers_stale: false,
            ..self
        };
        if self.headers_stale {
            s.headers_wanted(s.selected_mailbox, 1)
        } else {
            s
        }
    }
}

impl EsMailApp {
    /// The header with a UID in the list that is on screen.
    pub fn listed_header(&self, uid: u32) -> (r: Option<MailHeader>)
        ensures
            match r {
                Some(h) => {
                    let i = selection::uid_index(self@.shown_list(), uid);
                    i >= 0 && h@ == self@.shown_list()[i]
                },
                None => selection::uid_index(self@.shown_list(), uid) < 0,
            },
    {
        let list = match &self.search_results {
            Some(results) => results,
            None => &self.headers,
        };
        assert(list.deep_view() == self@.shown_list());
        match selection::find_uid(list, uid) {
            Some(i) => Some(list[i].clone()),
            None => None,
        }
    }

    /// Whether a message of the mailbox's list is known to be read.
    fn known_seen(&self, uid: u32) -> (r: bool)
        ensures
            r == self@.listed_as_seen(uid),
    {
        let mut i: usize = 0;
        while i < self.headers.len()
            invariant
                i <= self.headers@.len(),
                forall|j: int|
                    0 <= j < i ==> !((#[trigger] self@.headers[j]).uid == uid
                        && self@.headers[j].is_seen()),
            decreases self.headers@.len() - i,
        {
            assert(self@.headers[i as int] == self.headers@[i as int]@);
            if self.headers[i].uid == uid && self.headers[i].is_seen() {
                return true;
            }
            i += 1;
        }
        false
    }

    /// Selects a message and shows that it is being loaded.
    fn begin_opening(&mut self, uid: u32, sender: Option<String>, trusted: bool)
        ensures
            final(self)@ == old(self)@.opening(uid, sender.deep_view(), trusted),
    {
        self.selected_uid = Some(uid);
        self.forget_open();
        self.current_sender = sender;
        self.allow_remote = trusted;
        self.current_attachments = Vec::new();
        assert(self.current_attachments.deep_view() =~= seq![]);
        self.show_page("<i>Loading message...</i>".to_owned());
    }

    /// Asks the cache for the text of a search result.
    fn fetch_cached_body(&mut self, uid: u32)
        requires
            old(self)@.has_ids(1),
        ensures
            final(self)@ == old(self)@.cached_body_wanted(uid),
    {
        let req_id: u64 = self.fresh_req_id();
        self.current_body_req = req_id;
        match compose::copy_option(&self.active) {
            Some(account_id) => {
                let mailbox = self.selected_mailbox.clone();
                self.emit(Effect::Db(DbCommand::FetchMail { account_id, mailbox, uid }));
            },
            None => {},
        }
    }

    /// Schedules, or not, that the open message is marked read.
    fn schedule_mark_seen(&mut self, at: Option<(u32, u64)>)
        ensures
            final(self)@ == (AppModel { pending_mark_seen: at, ..old(self)@ }),
    {
        self.pending_mark_seen = at;
    }

    /// Opens a message of the list that is on screen, at the time `now`.
    /// `sender` is the address its header names, and `trusted` whether that is
    /// on the list of senders whose images are loaded.
    pub fn open_message(
        &mut self,
        uid: u32,
        is_search: bool,
        sender: Option<String>,
        trusted: bool,
        now: u64,
    )
        requires
            old(self)@.has_ids(1),
        ensures
            final(self)@ == old(self)@.opened(uid, is_search, sender.deep_view(), trusted, now),
    {
        let seen = self.known_seen(uid);
        self.begin_opening(uid, sender, trusted);
        if is_search {
            self.fetch_cached_body(uid);
        } else {
            let mailbox = self.selected_mailbox.clone();
            self.fetch_body(mailbox, uid);
        }
        self.schedule_mark_seen(
            if seen {
                None
            } else {
                Some((uid, now))
            },
        );
    }

    /// Whether search result `i` lives in the mailbox that is open.
    pub fn hit_is_in_open_context(&self, i: usize) -> (r: bool)
        ensures
            r == self@.in_open_context(i as int),
    {
        match &self.active {
            Some(active) => {
                if i < self.search_origins.len() {
                    let origin = &self.search_origins[i];
                    assert(self@.search_origins[i as int] == (origin.0@, origin.1@));
                    origin.0 == *active && origin.1 == self.selected_mailbox
                } else {
                    false
                }
            },
            None => false,
        }
    }

    /// The first search result with a UID that lives in the open mailbox.
    pub fn find_open_hit(&self, results: &Vec<MailHeader>, uid: u32) -> (r: Option<usize>)
        ensures
            match r {
                Some(i) => i < results@.len() && open_hit_index(self@, results.deep_view(), uid) == i,
                None => open_hit_index(self@, results.deep_view(), uid) == -1,
            },
    {
        let ghost all = results.deep_view();
        let mut i: usize = 0;
        assert(open_hit_index(self@, all.take(0), uid) == -1);
        while i < results.len()
            invariant
                i <= results@.len(),
                all == results.deep_view(),
                open_hit_index(self@, all.take(i as int), uid) == -1,
            decreases results@.len() - i,
        {
            assert(all.take(i + 1).drop_last() =~= all.take(i as int));
            assert(all.take(i + 1).last() == results@[i as int]@);
            if results[i].uid == uid && self.hit_is_in_open_context(i) {
                proof {
                    assert(open_hit_index(self@, all.take(i + 1), uid) == i);
                    lemma_open_hit_stays(self@, all, uid, i + 1);
                }
                return Some(i);
            }
            i += 1;
        }
        assert(all.take(all.len() as int) =~= all);
        None
    }

    /// The header of the open message: from the search results when one of
    /// them is open, else from the message list.
    pub fn selected_header(&self) -> (r: Option<MailHeader>)
        ensures
            match r {
                Some(h) => self@.selected_header() == Some(h@),
                None => self@.selected_header() is None,
            },
    {
        let uid: u32 = match self.selected_uid {
            Some(uid) => uid,
            None => {
                return None;
            },
        };
        if let Some(results) = &self.search_results {
            assert(self@.search_results == Some(results.deep_view()));
            if let Some(i) = self.find_open_hit(results, uid) {
                assert(results.deep_view()[i as int] == results@[i as int]@);
                return Some(results[i].clone());
            }
        }
        match selection::find_uid(&self.headers, uid) {
            Some(i) => {
                assert(self@.headers[i as int] == self.headers@[i as int]@);
                Some(self.headers[i].clone())
            },
            None => None,
        }
    }

    /// Whether a message is starred, by the list that is on screen for it.
    pub fn is_flagged_uid(&self, uid: u32) -> (r: bool)
        ensures
            r == self@.is_flagged_uid(uid),
    {
        match &self.search_results {
            Some(results) => {
                let ghost all = results.deep_view();
                assert(self@.search_results == Some(all));
                let mut i: usize = 0;
                while i < results.len()
                    invariant
                        i <= results@.len(),
                        all == results.deep_view(),
                        self@.search_results == Some(all),
                        forall|j: int|
                            0 <= j < i ==> !((#[trigger] all[j]).uid == uid && all[j].is_flagged()
                                && self@.in_open_context(j)),
                    decreases results@.len() - i,
                {
                    assert(all[i as int] == results@[i as int]@);
                    if results[i].uid == uid && results[i].is_flagged()
                        && self.hit_is_in_open_context(i) {
                        assert(self@.search_results->0[i as int].uid == uid);
                        return true;
                    }
                    i += 1;
                }
                false
            },
            None => {
                let mut i: usize = 0;
                while i < self.headers.len()
                    invariant
                        i <= self.headers@.len(),
                        self@.search_results is None,
                        forall|j: int|
                            0 <= j < i ==> !((#[trigger] self@.headers[j]).uid == uid
                                && self@.headers[j].is_flagged()),
                    decreases self.headers@.len() - i,
                {
                    assert(self@.headers[i as int] == self.headers@[i as int]@);
                    if self.headers[i].uid == uid && self.headers[i].is_flagged() {
                        return true;
                    }
                    i += 1;
                }
                false
            },
        }
    }

    /// Moves the message list to where a search result lives, without asking
    /// for its headers.
    fn move_context(&mut self, account: String, mailbox: String)
        ensures
            final(self)@ == (AppModel {
                headers_stale: true,
                active: Some(account@),
                selected_mailbox: mailbox@,
                ..old(self)@
            }),
    {
        self.headers_stale = true;
        self.active = Some(account);
        self.selected_mailbox = mailbox;
    }

    /// Opens search result `i`: moves to its account and mailbox first if it
    /// lives elsewhere, then opens it from the cache.
    pub fn open_search_hit(&mut self, i: usize, sender: Option<String>, trusted: bool, now: u64)
        requires
            old(self)@.has_ids(1),
        ensures
            final(self)@ == old(self)@.hit_opened(i as int, sender.deep_view(), trusted, now),
    {
        let uid: u32 = match &self.search_results {
            Some(results) => {
                if i < results.len() && i < self.search_origins.len() {
                    assert(self@.search_results == Some(results.deep_view()));
                    assert(results.deep_view()[i as int] == results@[i as int]@);
                    results[i].uid
                } else {
                    return;
                }
            },
            None => {
                return;
            },
        };
        let account = self.search_origins[i].0.clone();
        let mailbox = self.search_origins[i].1.clone();
        assert(self@.search_origins[i as int] == (account@, mailbox@));
        if find_account(&self.accounts, account.as_str()).is_none() {
            let mut message = self.account_label(account.as_str());
            message.append(
                " is not connected. Connect it under Settings > Accounts to open this message.",
            );
            self.push_banner(message);
            return;
        }
        let here = match &self.active {
            Some(a) => *a == account && self.selected_mailbox == mailbox,
            None => false,
        };
        if !here {
            self.move_context(account, mailbox);
        }
        self.open_message(uid, true, sender, trusted, now);
    }

    /// Leaves the search and, if opening a result moved the list to another
    /// mailbox meanwhile, asks for its headers again.
    pub fn clear_search(&mut self)
        requires
            old(self)@.has_ids(1),
        ensures
            final(self)@ == old(self)@.search_left(),
    {
        self.forget_search();
        if self.headers_stale {
            self.headers_stale = false;
            let mailbox = self.selected_mailbox.clone();
            self.fetch_headers(mailbox, 1);
        }
    }
}

proof fn lemma_open_hit_stays(s: AppModel, results: Seq<MailHeaderModel>, uid: u32, n: int)
    requires
        0 <= n <= results.len(),
        open_hit_index(s, results.take(n), uid) >= 0,
    ensures
        open_hit_index(s, results, uid) == open_hit_index(s, results.take(n), uid),
    decreases results.len(),
{
    if n == results.len() {
        assert(results.take(n) =~= results);
    } else {
        assert(results.drop_last().take(n) =~= results.take(n));
        lemma_open_hit_stays(s, results.drop_last(), uid, n);
    }
}

/// What [`open_hit_index`] finds lives in the open mailbox and has the UID.
pub proof fn lemma_open_hit_index(s: AppModel, results: Seq<MailHeaderModel>, uid: u32)
    ensures
        -1 <= open_hit_index(s, results, uid) < results.len(),
        open_hit_index(s, results, uid) >= 0 ==> s.in_open_context(open_hit_index(s, results, uid))
            && results[open_hit_index(s, results, uid)].uid == uid,
    decreases results.len(),
{
    if results.len() > 0 {
        lemma_open_hit_index(s, results.drop_last(), uid);
    }
}

// ── Actions on the selection ────────────────────────────────────────────────

/// Adding one flag and removing none, or the other way round.
pub open spec fn star_change(flagged: bool) -> (Seq<Text>, Seq<Text>) {
    if flagged {
        (seq![], seq![imap::FLAG_FLAGGED@])
    } else {
        (seq![imap::FLAG_FLAGGED@], seq![])
    }
}

impl AppModel {
    /// The messages a bulk action applies to: the selected ones in ascending
    /// order, or the open one if none is selected.
    pub open spec fn targets(self) -> Seq<u32> {
        if !self.selected_uids.is_empty() {
            selection::in_order(self.selected_uids)
        } else {
            self.open_target()
        }
    }

    /// Messages are asked to be moved to the archive of the account shown.
    pub open spec fn archived(self, uids: Seq<u32>) -> AppModel {
        self.moves_wanted_on(uids, self.special_mailbox(SpecialUse::Archive, ARCHIVE_MAILBOX@))
    }

    /// Messages are asked to be moved to the trash of the account shown.
    pub open spec fn trashed(self, uids: Seq<u32>) -> AppModel {
        self.moves_wanted_on(uids, self.special_mailbox(SpecialUse::Trash, TRASH_MAILBOX@))
    }

    /// The message an action on the open message applies to.
    pub open spec fn open_target(self) -> Seq<u32> {
        match self.selected_uid {
            Some(uid) => seq![uid],
            None => seq![],
        }
    }

    /// A change of one message's flags is asked for.
    pub open spec fn flags_wanted(self, uid: u32, add: Seq<Text>, remove: Seq<Text>) -> AppModel {
        let s = self.with_req_id();
        s.imap(
            ImapCommandModel::StoreFlags {
                mailbox: s.selected_mailbox,
                uid,
                add,
                remove,
                req_id: s.next_req_id,
            },
        )
    }

    /// The same change of flags is asked for on the first messages of a list.
    pub open spec fn flags_wanted_on(
        self,
        uids: Seq<u32>,
        add: Seq<Text>,
        remove: Seq<Text>,
    ) -> AppModel
        decreases uids.len(),
    {
        if uids.len() == 0 {
            self
        } else {
            self.flags_wanted_on(uids.drop_last(), add, remove).flags_wanted(
                uids.last(),
                add,
                remove,
            )
        }
    }

    /// Each message of a list is starred or unstarred, by its own state.
    pub open spec fn stars_toggled_on(self, uids: Seq<u32>) -> AppModel
        decreases uids.len(),
    {
        if uids.len() == 0 {
            self
        } else {
            let change = star_change(self.is_flagged_uid(uids.last()));
            self.stars_toggled_on(uids.drop_last()).flags_wanted(uids.last(), change.0, change.1)
        }
    }

    /// Moving one message is asked for.
    pub open spec fn move_wanted(self, uid: u32, dest: Text) -> AppModel {
        let s = self.with_req_id();
        s.imap(
            ImapCommandModel::MoveMessage {
                mailbox: s.selected_mailbox,
                uid,
                dest,
                req_id: s.next_req_id,
            },
        )
    }

    /// Moving the messages of a list is asked for.
    pub open spec fn moves_wanted_on(self, uids: Seq<u32>, dest: Text) -> AppModel
        decreases uids.len(),
    {
        if uids.len() == 0 {
            self
        } else {
            self.moves_wanted_on(uids.drop_last(), dest).move_wanted(uids.last(), dest)
        }
    }

    /// The mailbox of an account that has a special role.
    pub open spec fn special_mailbox_for(self, account: Text, want: SpecialUse, default: Text) -> Text {
        if self.has_account(account) {
            mailboxes::mailbox_for(self.account(account).mailbox_rows, want, default)
        } else {
            default
        }
    }

    /// The mailbox of the account shown that has a special role.
    pub open spec fn special_mailbox(self, want: SpecialUse, default: Text) -> Text {
        match self.active {
            Some(account) => self.special_mailbox_for(account, want, default),
            None => default,
        }
    }

    /// The open message is marked read once it has stayed open long enough; a
    /// message that was left before never is.
    pub open spec fn seen_if_due(self, now: u64) -> AppModel {
        match self.pending_mark_seen {
            None => self,
            Some((uid, at)) => if self.selected_uid != Some(uid) {
                AppModel { pending_mark_seen: None, ..self }
            } else if elapsed(now, at) < MARK_SEEN_DELAY {
                self
            } else {
                (AppModel { pending_mark_seen: None, ..self }).flags_wanted(
                    uid,
                    seq![imap::FLAG_SEEN@],
                    seq![],
                )
            },
        }
    }
}

/// What a bulk action leaves alone: everything but the request ids and what is
/// to be done outside.
pub open spec fn same_but_requests(a: AppModel, b: AppModel) -> bool {
    b == (AppModel { next_req_id: b.next_req_id, effects: b.effects, ..a })
}

/// Asking for flags on a list takes one request id for each message.
pub proof fn lemma_flags_wanted_on(s: AppModel, uids: Seq<u32>, add: Seq<Text>, remove: Seq<Text>)
    requires
        s.next_req_id + uids.len() <= u64::MAX,
    ensures
        same_but_requests(s, s.flags_wanted_on(uids, add, remove)),
        s.flags_wanted_on(uids, add, remove).next_req_id == s.next_req_id + uids.len(),
    decreases uids.len(),
{
    if uids.len() > 0 {
        lemma_flags_wanted_on(s, uids.drop_last(), add, remove);
    }
}

/// Toggling stars on a list takes one request id for each message.
pub proof fn lemma_stars_toggled_on(s: AppModel, uids: Seq<u32>)
    requires
        s.next_req_id + uids.len() <= u64::MAX,
    ensures
        same_but_requests(s, s.stars_toggled_on(uids)),
        s.stars_toggled_on(uids).next_req_id == s.next_req_id + uids.len(),
    decreases uids.len(),
{
    if uids.len() > 0 {
        lemma_stars_toggled_on(s, uids.drop_last());
    }
}

/// Asking for a list to be moved takes one request id for each message.
pub proof fn lemma_moves_wanted_on(s: AppModel, uids: Seq<u32>, dest: Text)
    requires
        s.next_req_id + uids.len() <= u64::MAX,
    ensures
        same_but_requests(s, s.moves_wanted_on(uids, dest)),
        s.moves_wanted_on(uids, dest).next_req_id == s.next_req_id + uids.len(),
    decreases uids.len(),
{
    if uids.len() > 0 {
        lemma_moves_wanted_on(s, uids.drop_last(), dest);
    }
}

/// A list of one string.
pub fn one_string(s: &str) -> (r: Vec<String>)
    ensures
        r.deep_view() == seq![s@],
{
    let r = vec![s.to_owned()];
    assert(r.deep_view() =~= seq![s@]);
    r
}

/// A list of no strings.
pub fn no_strings() -> (r: Vec<String>)
    ensures
        r.deep_view() == Seq::<Text>::empty(),
{
    let r: Vec<String> = Vec::new();
    assert(r.deep_view() =~= Seq::<Text>::empty());
    r
}

impl EsMailApp {
    /// The messages a bulk action applies to.
    pub fn action_targets(&self) -> (r: Vec<u32>)
        ensures
            r@ == self@.targets(),
    {
        if !self.selected_uids.is_empty() {
            selection::walk(&self.selected_uids)
        } else {
            self.open_uid()
        }
    }

    /// The message an action on the open message applies to.
    fn open_uid(&self) -> (r: Vec<u32>)
        ensures
            r@ == self@.open_target(),
    {
        match self.selected_uid {
            Some(uid) => {
                let r = vec![uid];
                assert(r@ =~= seq![uid]);
                r
            },
            None => {
                let r: Vec<u32> = Vec::new();
                assert(r@ =~= seq![]);
                r
            },
        }
    }

    /// Asks for a change of one message's flags.
    fn want_flags(&mut self, uid: u32, add: Vec<String>, remove: Vec<String>)
        requires
            old(self)@.next_req_id < u64::MAX,
        ensures
            final(self)@ == old(self)@.flags_wanted(uid, add.deep_view(), remove.deep_view()),
    {
        self.next_req_id = self.next_req_id + 1;
        let req_id: u64 = self.next_req_id;
        let mailbox = self.selected_mailbox.clone();
        self.send_imap(ImapCommand::StoreFlags { mailbox, uid, add, remove, req_id });
    }

    /// Asks for the same change of flags on every target of a bulk action.
    pub fn store_flags_on_selection(&mut self, add: &Vec<String>, remove: &Vec<String>)
        requires
            old(self)@.next_req_id + old(self)@.targets().len() <= u64::MAX,
        ensures
            final(self)@ == old(self)@.flags_wanted_on(
                old(self)@.targets(),
                add.deep_view(),
                remove.deep_view(),
            ),
    {
        let uids = self.action_targets();
        self.store_flags_on(&uids, add, remove);
    }

    /// Asks for a change of flags on the open message alone, whatever else is
    /// selected.
    pub fn store_flags_on_open(&mut self, add: &Vec<String>, remove: &Vec<String>)
        requires
            old(self)@.next_req_id < u64::MAX,
        ensures
            final(self)@ == old(self)@.flags_wanted_on(
                old(self)@.open_target(),
                add.deep_view(),
                remove.deep_view(),
            ),
    {
        let uids = self.open_uid();
        self.store_flags_on(&uids, add, remove);
    }

    /// Asks for the same change of flags on several messages.
    fn store_flags_on(&mut self, uids: &Vec<u32>, add: &Vec<String>, remove: &Vec<String>)
        requires
            old(self)@.next_req_id + uids@.len() <= u64::MAX,
        ensures
            final(self)@ == old(self)@.flags_wanted_on(uids@, add.deep_view(), remove.deep_view()),
    {
        let ghost start = self@;
        let ghost a = add.deep_view();
        let ghost r = remove.deep_view();
        let mut i: usize = 0;
        assert(start.flags_wanted_on(uids@.take(0), a, r) == start);
        while i < uids.len()
            invariant
                i <= uids@.len(),
                a == add.deep_view(),
                r == remove.deep_view(),
                start.next_req_id + uids@.len() <= u64::MAX,
                self@ == start.flags_wanted_on(uids@.take(i as int), a, r),
            decreases uids@.len() - i,
        {
            proof {
                lemma_flags_wanted_on(start, uids@.take(i as int), a, r);
                assert(uids@.take(i + 1).drop_last() =~= uids@.take(i as int));
            }
            self.want_flags(uids[i], imap::copy_strings(add), imap::copy_strings(remove));
            i += 1;
        }
        assert(uids@.take(uids@.len() as int) =~= uids@);
    }

    /// Stars or unstars every target, each by its own state.
    pub fn toggle_star_on_selection(&mut self)
        requires
            old(self)@.next_req_id + old(self)@.targets().len() <= u64::MAX,
        ensures
            final(self)@ == old(self)@.stars_toggled_on(old(self)@.targets()),
    {
        let uids = self.action_targets();
        self.toggle_star_on(&uids);
    }

    /// Stars or unstars the open message alone, whatever else is selected.
    pub fn toggle_star_on_open(&mut self)
        requires
            old(self)@.next_req_id < u64::MAX,
        ensures
            final(self)@ == old(self)@.stars_toggled_on(old(self)@.open_target()),
    {
        let uids = self.open_uid();
        self.toggle_star_on(&uids);
    }

    /// Stars or unstars several messages, each by its own state.
    fn toggle_star_on(&mut self, uids: &Vec<u32>)
        requires
            old(self)@.next_req_id + uids@.len() <= u64::MAX,
        ensures
            final(self)@ == old(self)@.stars_toggled_on(uids@),
    {
        let ghost start = self@;
        let mut i: usize = 0;
        assert(start.stars_toggled_on(uids@.take(0)) == start);
        while i < uids.len()
            invariant
                i <= uids@.len(),
                start.next_req_id + uids@.len() <= u64::MAX,
                self@ == start.stars_toggled_on(uids@.take(i as int)),
            decreases uids@.len() - i,
        {
            proof {
                lemma_stars_toggled_on(start, uids@.take(i as int));
                assert(uids@.take(i + 1).drop_last() =~= uids@.take(i as int));
                lemma_flagged_unchanged(start, self@, uids@[i as int]);
            }
            if self.is_flagged_uid(uids[i]) {
                self.want_flags(uids[i], no_strings(), one_string(imap::FLAG_FLAGGED));
            } else {
                self.want_flags(uids[i], one_string(imap::FLAG_FLAGGED), no_strings());
            }
            i += 1;
        }
        assert(uids@.take(uids@.len() as int) =~= uids@);
    }

    /// Asks for every target to be moved.
    pub fn move_selection(&mut self, dest: &str)
        requires
            old(self)@.next_req_id + old(self)@.targets().len() <= u64::MAX,
        ensures
            final(self)@ == old(self)@.moves_wanted_on(old(self)@.targets(), dest@),
    {
        let uids = self.action_targets();
        self.move_all(&uids, dest);
    }

    /// Asks for several messages to be moved.
    fn move_all(&mut self, uids: &Vec<u32>, dest: &str)
        requires
            old(self)@.next_req_id + uids@.len() <= u64::MAX,
        ensures
            final(self)@ == old(self)@.moves_wanted_on(uids@, dest@),
    {
        let ghost start = self@;
        let mut i: usize = 0;
        assert(start.moves_wanted_on(uids@.take(0), dest@) == start);
        while i < uids.len()
            invariant
                i <= uids@.len(),
                start.next_req_id + uids@.len() <= u64::MAX,
                self@ == start.moves_wanted_on(uids@.take(i as int), dest@),
            decreases uids@.len() - i,
        {
            proof {
                lemma_moves_wanted_on(start, uids@.take(i as int), dest@);
                assert(uids@.take(i + 1).drop_last() =~= uids@.take(i as int));
            }
            self.next_req_id = self.next_req_id + 1;
            let req_id: u64 = self.next_req_id;
            let mailbox = self.selected_mailbox.clone();
            self.send_imap(
                ImapCommand::MoveMessage { mailbox, uid: uids[i], dest: dest.to_owned(), req_id },
            );
            i += 1;
        }
        assert(uids@.take(uids@.len() as int) =~= uids@);
    }

    /// The mailbox of an account that has a special role.
    pub fn special_use_mailbox_for(&self, account: &str, want: SpecialUse, default: &str) -> (r: String)
        ensures
            r@ == self@.special_mailbox_for(account@, want, default@),
    {
        match find_account(&self.accounts, account) {
            Some(i) => {
                assert(self@.accounts[i as int] == self.accounts@[i as int]@);
                let rows = self.accounts[i].mailbox_rows.as_slice();
                assert(rows.deep_view() =~= self.accounts@[i as int].mailbox_rows.deep_view());
                mailboxes::find_special_use_mailbox(rows, want, default)
            },
            None => default.to_owned(),
        }
    }

    /// The mailbox of the account shown that has a special role.
    pub fn special_use_mailbox(&self, want: SpecialUse, default: &str) -> (r: String)
        ensures
            r@ == self@.special_mailbox(want, default@),
    {
        match &self.active {
            Some(account) => self.special_use_mailbox_for(account.as_str(), want, default),
            None => default.to_owned(),
        }
    }

    /// Archives every target.
    pub fn archive_selection(&mut self)
        requires
            old(self)@.next_req_id + old(self)@.targets().len() <= u64::MAX,
        ensures
            final(self)@ == old(self)@.archived(old(self)@.targets()),
    {
        let dest = self.special_use_mailbox(SpecialUse::Archive, ARCHIVE_MAILBOX);
        self.move_selection(dest.as_str());
    }

    /// Moves every target to the trash.
    pub fn delete_selection(&mut self)
        requires
            old(self)@.next_req_id + old(self)@.targets().len() <= u64::MAX,
        ensures
            final(self)@ == old(self)@.trashed(old(self)@.targets()),
    {
        let dest = self.special_use_mailbox(SpecialUse::Trash, TRASH_MAILBOX);
        self.move_selection(dest.as_str());
    }

    /// Archives the open message alone, whatever else is selected.
    pub fn archive_open(&mut self)
        requires
            old(self)@.next_req_id < u64::MAX,
        ensures
            final(self)@ == old(self)@.archived(old(self)@.open_target()),
    {
        let dest = self.special_use_mailbox(SpecialUse::Archive, ARCHIVE_MAILBOX);
        let uids = self.open_uid();
        self.move_all(&uids, dest.as_str());
    }

    /// Moves the open message alone to the trash, whatever else is selected.
    pub fn delete_open(&mut self)
        requires
            old(self)@.next_req_id < u64::MAX,
        ensures
            final(self)@ == old(self)@.trashed(old(self)@.open_target()),
    {
        let dest = self.special_use_mailbox(SpecialUse::Trash, TRASH_MAILBOX);
        let uids = self.open_uid();
        self.move_all(&uids, dest.as_str());
    }

    /// Marks the open message read once it has stayed open long enough.
    pub fn handle_mark_seen_delay(&mut self, now: u64)
        requires
            old(self)@.next_req_id < u64::MAX,
        ensures
            final(self)@ == old(self)@.seen_if_due(now),
    {
        let (uid, at): (u32, u64) = match self.pending_mark_seen {
            Some(p) => p,
            None => {
                return;
            },
        };
        let open = match self.selected_uid {
            Some(u) => u == uid,
            None => false,
        };
        if !open {
            self.schedule_mark_seen(None);
            return;
        }
        if elapsed_ms(now, at) < MARK_SEEN_DELAY {
            return;
        }
        self.schedule_mark_seen(None);
        self.want_flags(uid, one_string(imap::FLAG_SEEN), no_strings());
    }
}

/// Asking for changes does not change what is starred on screen.
proof fn lemma_flagged_unchanged(a: AppModel, b: AppModel, uid: u32)
    requires
        same_but_requests(a, b),
    ensures
        b.is_flagged_uid(uid) == a.is_flagged_uid(uid),
{
    assert(b.headers == a.headers);
    assert(b.search_results == a.search_results);
    if let Some(results) = a.search_results {
        if a.is_flagged_uid(uid) {
            let i = choose|i: int|
                0 <= i < results.len() && (#[trigger] results[i]).uid == uid && results[i].is_flagged()
                    && a.in_open_context(i);
            assert(b.in_open_context(i));
        }
        if b.is_flagged_uid(uid) {
            let i = choose|i: int|
                0 <= i < results.len() && (#[trigger] results[i]).uid == uid && results[i].is_flagged()
                    && b.in_open_context(i);
            assert(a.in_open_context(i));
        }
    }
}

} // verus!
