//! What the program does when a message's flags have changed or a message has
//! moved: the lists on screen, the unread counts and the cache follow.

use vstd::prelude::*;
use vstd::string::*;
use crate::app;
use crate::db::{DbCommand, DbCommandModel};
use crate::imap;
use crate::imap::{MailHeader, MailHeaderModel};
use crate::selection;
use crate::state::{AccountModel, AppModel, Effect, EffectModel, EsMailApp};
use crate::text;
use crate::text::Text;

verus! {

broadcast use vstd::string::group_string_axioms;

// ── Lists ───────────────────────────────────────────────────────────────────

/// A list in which the first message with a UID has other flags.
pub open spec fn reflagged(list: Seq<MailHeaderModel>, uid: u32, flags: Seq<Text>) -> Seq<
    MailHeaderModel,
> {
    let i = selection::uid_index(list, uid);
    if i >= 0 {
        list.update(i, MailHeaderModel { flags, ..list[i] })
    } else {
        list
    }
}

/// Whether the search result at position `i` is the message with a UID in an
/// account's mailbox.
pub open spec fn is_hit(
    results: Seq<MailHeaderModel>,
    origins: Seq<(Text, Text)>,
    i: int,
    account: Text,
    mailbox: Text,
    uid: u32,
) -> bool {
    results[i].uid == uid && i < origins.len() && origins[i] == (account, mailbox)
}

/// Search results in which one message has other flags.
pub open spec fn hits_reflagged(
    results: Seq<MailHeaderModel>,
    origins: Seq<(Text, Text)>,
    account: Text,
    mailbox: Text,
    uid: u32,
    flags: Seq<Text>,
) -> Seq<MailHeaderModel> {
    Seq::new(
        results.len(),
        |i: int|
            if is_hit(results, origins, i, account, mailbox, uid) {
                MailHeaderModel { flags, ..results[i] }
            } else {
                results[i]
            },
    )
}

/// A list without the messages with a UID.
pub open spec fn without_message(list: Seq<MailHeaderModel>, uid: u32) -> Seq<MailHeaderModel>
    decreases list.len(),
{
    if list.len() == 0 {
        list
    } else if list.last().uid == uid {
        without_message(list.drop_last(), uid)
    } else {
        without_message(list.drop_last(), uid).push(list.last())
    }
}

/// The first `n` search results, with where they live, without one message.
pub open spec fn hits_without(
    results: Seq<MailHeaderModel>,
    origins: Seq<(Text, Text)>,
    n: nat,
    account: Text,
    mailbox: Text,
    uid: u32,
) -> (Seq<MailHeaderModel>, Seq<(Text, Text)>)
    decreases n,
{
    if n == 0 {
        (seq![], seq![])
    } else {
        let before = hits_without(results, origins, (n - 1) as nat, account, mailbox, uid);
        if is_hit(results, origins, n - 1, account, mailbox, uid) {
            before
        } else {
            (before.0.push(results[n - 1]), before.1.push(origins[n - 1]))
        }
    }
}

/// The number of search results whose origin is known.
pub open spec fn paired(results: Seq<MailHeaderModel>, origins: Seq<(Text, Text)>) -> nat {
    if results.len() <= origins.len() {
        results.len()
    } else {
        origins.len()
    }
}

// ── Counts ──────────────────────────────────────────────────────────────────

impl AppModel {
    /// The unread count of an account's mailbox, if it is known.
    pub open spec fn count(self, account: Text, mailbox: Text) -> Option<u32> {
        if self.has_account(account) && self.account(account).unread_counts.dom().contains(mailbox) {
            Some(self.account(account).unread_counts[mailbox])
        } else {
            None
        }
    }

    /// Whether one more unread message can be counted in a mailbox.
    pub open spec fn count_has_room(self, account: Text, mailbox: Text) -> bool {
        self.count(account, mailbox) matches Some(n) ==> n < u32::MAX
    }

    /// Another unread count, where the mailbox is counted.
    pub open spec fn recounted(self, account: Text, mailbox: Text, n: u32) -> AppModel {
        if self.count(account, mailbox) is Some {
            let i = self.index_of(account);
            self.with_account_at(
                i,
                AccountModel {
                    unread_counts: self.accounts[i].unread_counts.insert(mailbox, n),
                    ..self.accounts[i]
                },
            )
        } else {
            self
        }
    }

    /// One unread message more, where the mailbox is counted.
    pub open spec fn one_more_unread(self, account: Text, mailbox: Text) -> AppModel {
        match self.count(account, mailbox) {
            Some(n) => self.recounted(account, mailbox, (n + 1) as u32),
            None => self,
        }
    }

    /// One unread message less, where the mailbox is counted.
    pub open spec fn one_less_unread(self, account: Text, mailbox: Text) -> AppModel {
        match self.count(account, mailbox) {
            Some(n) => self.recounted(
                account,
                mailbox,
                if n > 0 {
                    (n - 1) as u32
                } else {
                    0
                },
            ),
            None => self,
        }
    }

    /// Whether an account's mailbox is the one listed.
    pub open spec fn is_on_screen(self, account: Text, mailbox: Text) -> bool {
        self.is_active(account) && mailbox == self.selected_mailbox
    }

    /// Whether a message of the mailbox listed was read, if it is listed.
    pub open spec fn was_seen(self, account: Text, mailbox: Text, uid: u32) -> Option<bool> {
        let i = selection::uid_index(self.headers, uid);
        if self.is_on_screen(account, mailbox) && i >= 0 {
            Some(self.headers[i].is_seen())
        } else {
            None
        }
    }

    /// Whether a change of flags can be counted.
    pub open spec fn flags_fit(self, account: Text, mailbox: Text, uid: u32, flags: Seq<Text>) -> bool {
        self.was_seen(account, mailbox, uid) == Some(true) && !imap::has_flag(
            flags,
            imap::FLAG_SEEN@,
        ) ==> self.count_has_room(account, mailbox)
    }

    /// Whether a move can be counted.
    pub open spec fn move_fits(self, account: Text, mailbox: Text, uid: u32, dest: Text) -> bool {
        self.was_seen(account, mailbox, uid) == Some(false) && mailbox != dest
            ==> self.count_has_room(account, dest)
    }

    // ── Flags ───────────────────────────────────────────────────────────────

    /// The lists on screen after a message's flags changed.
    pub open spec fn lists_reflagged(
        self,
        account: Text,
        mailbox: Text,
        uid: u32,
        flags: Seq<Text>,
    ) -> AppModel {
        AppModel {
            headers: if self.is_on_screen(account, mailbox) {
                reflagged(self.headers, uid, flags)
            } else {
                self.headers
            },
            search_results: match self.search_results {
                Some(results) => Some(
                    hits_reflagged(results, self.search_origins, account, mailbox, uid, flags),
                ),
                None => None,
            },
            ..self
        }
    }

    /// A message's flags have changed. The lists that show it follow, the
    /// unread count follows if it was listed, and the cache follows.
    pub open spec fn on_flags_updated(
        self,
        account: Text,
        mailbox: Text,
        uid: u32,
        flags: Seq<Text>,
    ) -> AppModel {
        let now_seen = imap::has_flag(flags, imap::FLAG_SEEN@);
        let s = self.lists_reflagged(account, mailbox, uid, flags);
        let s = match self.was_seen(account, mailbox, uid) {
            Some(was_seen) => if was_seen && !now_seen {
                s.one_more_unread(account, mailbox)
            } else if !was_seen && now_seen {
                s.one_less_unread(account, mailbox)
            } else {
                s
            },
            None => s,
        };
        s.emit(
            EffectModel::Db(
                DbCommandModel::UpdateFlags { account_id: account, mailbox, uid, flags },
            ),
        )
    }

    // ── Moves ───────────────────────────────────────────────────────────────

    /// The lists on screen after a message moved away.
    pub open spec fn lists_without(self, account: Text, mailbox: Text, uid: u32) -> AppModel {
        let s = AppModel {
            headers: if self.is_on_screen(account, mailbox) {
                without_message(self.headers, uid)
            } else {
                self.headers
            },
            ..self
        };
        match self.search_results {
            Some(results) => {
                let kept = hits_without(
                    results,
                    self.search_origins,
                    paired(results, self.search_origins),
                    account,
                    mailbox,
                    uid,
                );
                AppModel { search_results: Some(kept.0), search_origins: kept.1, ..s }
            },
            None => s,
        }
    }

    /// The selection after a message of the account shown moved away.
    pub open spec fn deselected(self, account: Text, uid: u32, dest: Text) -> AppModel {
        if !self.is_active(account) {
            self
        } else {
            let s = AppModel {
                selected_uids: self.selected_uids.remove(uid),
                ..self
            };
            let s = if self.selected_uid == Some(uid) {
                (AppModel {
                    selected_uid: None,
                    current_sender: None,
                    current_message_html: seq![],
                    ..s
                }).emit(
                    EffectModel::ShowPage("<i>Message moved.</i>"@),
                )
            } else {
                s
            };
            s.with_status("Moved to "@ + dest)
        }
    }

    /// A message has moved. It leaves every list, the selection and the cache;
    /// an unread one that was listed is counted where it went.
    pub open spec fn on_moved(self, account: Text, mailbox: Text, uid: u32, dest: Text) -> AppModel {
        let s = self.lists_without(account, mailbox, uid).deselected(account, uid, dest);
        let s = if self.was_seen(account, mailbox, uid) == Some(false) {
            s.one_less_unread(account, mailbox).one_more_unread(account, dest)
        } else {
            s
        };
        s.emit(EffectModel::Db(DbCommandModel::RemoveMessage { account_id: account, mailbox, uid }))
    }
}

// ── Executable ──────────────────────────────────────────────────────────────

/// Gives the first message with a UID other flags.
fn reflag(list: &mut Vec<MailHeader>, uid: u32, flags: &Vec<String>)
    ensures
        final(list).deep_view() == reflagged(old(list).deep_view(), uid, flags.deep_view()),
{
    let ghost held = list.deep_view();
    if let Some(i) = selection::find_uid(list, uid) {
        let header = &mut list[i];
        header.flags = imap::copy_strings(flags);
        proof {
            let new = MailHeaderModel { flags: flags.deep_view(), ..held[i as int] };
            assert(list@[i as int]@ =~= new);
            assert(list.deep_view() =~= held.update(i as int, new));
        }
    }
}

/// Whether a search result is the message with a UID in an account's mailbox.
fn matches_hit(
    results: &Vec<MailHeader>,
    origins: &Vec<(String, String)>,
    i: usize,
    account: &str,
    mailbox: &str,
    uid: u32,
) -> (r: bool)
    requires
        i < results@.len(),
    ensures
        r == is_hit(
            results.deep_view(),
            origins.deep_view(),
            i as int,
            account@,
            mailbox@,
            uid,
        ),
{
    if results[i].uid != uid || i >= origins.len() {
        return false;
    }
    assert(origins.deep_view()[i as int] == (origins@[i as int].0@, origins@[i as int].1@));
    text::same(origins[i].0.as_str(), account) && text::same(origins[i].1.as_str(), mailbox)
}

/// Gives one message other flags in search results.
fn reflag_hits(
    results: &mut Vec<MailHeader>,
    origins: &Vec<(String, String)>,
    account: &str,
    mailbox: &str,
    uid: u32,
    flags: &Vec<String>,
)
    ensures
        final(results).deep_view() == hits_reflagged(
            old(results).deep_view(),
            origins.deep_view(),
            account@,
            mailbox@,
            uid,
            flags.deep_view(),
        ),
{
    let ghost before = results.deep_view();
    let ghost o = origins.deep_view();
    let ghost f = flags.deep_view();
    let ghost want = hits_reflagged(before, o, account@, mailbox@, uid, f);
    let n: usize = results.len();
    let mut i: usize = 0;
    while i < n
        invariant
            i <= n,
            results@.len() == n,
            before.len() == n,
            o == origins.deep_view(),
            f == flags.deep_view(),
            want == hits_reflagged(before, o, account@, mailbox@, uid, f),
            forall|j: int| 0 <= j < i ==> #[trigger] results.deep_view()[j] == want[j],
            forall|j: int| i <= j < n ==> #[trigger] results.deep_view()[j] == before[j],
        decreases n - i,
    {
        let ghost now = results.deep_view();
        assert(now[i as int] == before[i as int]);
        if matches_hit(results, origins, i, account, mailbox, uid) {
            let header = &mut results[i];
            header.flags = imap::copy_strings(flags);
            proof {
                let new = MailHeaderModel { flags: f, ..before[i as int] };
                assert(results@[i as int]@ =~= new);
                assert(results.deep_view() =~= now.update(i as int, new));
            }
        }
        i += 1;
    }
    assert(results.deep_view() =~= want);
}

/// Takes the messages with a UID out of a list.
fn remove_messages(list: Vec<MailHeader>, uid: u32) -> (r: Vec<MailHeader>)
    ensures
        r.deep_view() == without_message(list.deep_view(), uid),
{
    let ghost all = list@;
    let ghost models = list.deep_view();
    let mut left = list;
    let mut kept: Vec<MailHeader> = Vec::new();
    let ghost mut n: int = 0;
    assert(left@ =~= all.skip(0));
    assert(kept.deep_view() =~= without_message(models.take(0), uid));
    while left.len() > 0
        invariant
            0 <= n <= all.len(),
            models.len() == all.len(),
            forall|i: int| 0 <= i < all.len() ==> #[trigger] models[i] == all[i]@,
            left@ == all.skip(n),
            kept.deep_view() == without_message(models.take(n), uid),
        decreases left@.len(),
    {
        let ghost held = kept.deep_view();
        let h = left.remove(0);
        assert(h == all[n]);
        assert(left@ =~= all.skip(n + 1));
        assert(models.take(n + 1).drop_last() =~= models.take(n));
        assert(models.take(n + 1).last() == h@);
        if h.uid != uid {
            kept.push(h);
            assert(kept.deep_view() =~= held.push(h@));
        }
        proof {
            n = n + 1;
        }
    }
    assert(models.take(n) =~= models);
    kept
}

/// Takes one message out of search results.
fn remove_hits(
    results: &Vec<MailHeader>,
    origins: &Vec<(String, String)>,
    account: &str,
    mailbox: &str,
    uid: u32,
) -> (r: (Vec<MailHeader>, Vec<(String, String)>))
    ensures
        (r.0.deep_view(), r.1.deep_view()) == hits_without(
            results.deep_view(),
            origins.deep_view(),
            paired(results.deep_view(), origins.deep_view()),
            account@,
            mailbox@,
            uid,
        ),
{
    let ghost rm = results.deep_view();
    let ghost om = origins.deep_view();
    let mut kept: Vec<MailHeader> = Vec::new();
    let mut kept_origins: Vec<(String, String)> = Vec::new();
    let n: usize = if results.len() <= origins.len() {
        results.len()
    } else {
        origins.len()
    };
    let mut i: usize = 0;
    assert(kept.deep_view() =~= seq![]);
    assert(kept_origins.deep_view() =~= seq![]);
    while i < n
        invariant
            i <= n <= results@.len(),
            n <= origins@.len(),
            rm == results.deep_view(),
            om == origins.deep_view(),
            (kept.deep_view(), kept_origins.deep_view()) == hits_without(
                rm,
                om,
                i as nat,
                account@,
                mailbox@,
                uid,
            ),
        decreases n - i,
    {
        let ghost held = kept.deep_view();
        let ghost held_origins = kept_origins.deep_view();
        if !matches_hit(results, origins, i, account, mailbox, uid) {
            kept.push(results[i].clone());
            kept_origins.push((origins[i].0.clone(), origins[i].1.clone()));
            assert(kept.deep_view() =~= held.push(rm[i as int]));
            assert(kept_origins.deep_view() =~= held_origins.push(om[i as int]));
        }
        i += 1;
    }
    (kept, kept_origins)
}

impl EsMailApp {
    /// The unread count of an account's mailbox, if it is known.
    pub fn unread_count(&self, account: &str, mailbox: &str) -> (r: Option<u32>)
        ensures
            r == self@.count(account@, mailbox@),
    {
        match app::find_account(&self.accounts, account) {
            Some(i) => {
                assert(self@.accounts[i as int] == self.accounts@[i as int]@);
                self.accounts[i].unread_counts.get(mailbox)
            },
            None => None,
        }
    }

    /// Sets an unread count, where the mailbox is counted.
    fn recount(&mut self, account: &str, mailbox: &str, n: u32)
        requires
            old(self)@.count(account@, mailbox@) is Some,
        ensures
            final(self)@ == old(self)@.recounted(account@, mailbox@, n),
    {
        if let Some(i) = app::find_account(&self.accounts, account) {
            self.set_count(i, mailbox, n);
        }
    }

    /// Counts one unread message more, where the mailbox is counted.
    fn count_up(&mut self, account: &str, mailbox: &str)
        requires
            old(self)@.count_has_room(account@, mailbox@),
        ensures
            final(self)@ == old(self)@.one_more_unread(account@, mailbox@),
    {
        if let Some(n) = self.unread_count(account, mailbox) {
            self.recount(account, mailbox, n + 1);
        }
    }

    /// Counts one unread message less, where the mailbox is counted.
    fn count_down(&mut self, account: &str, mailbox: &str)
        ensures
            final(self)@ == old(self)@.one_less_unread(account@, mailbox@),
    {
        if let Some(n) = self.unread_count(account, mailbox) {
            self.recount(
                account,
                mailbox,
                if n > 0 {
                    n - 1
                } else {
                    0
                },
            );
        }
    }

    /// Whether one more unread message can be counted in a mailbox.
    fn room_for_one(&self, account: &str, mailbox: &str) -> (r: bool)
        ensures
            r == self@.count_has_room(account@, mailbox@),
    {
        match self.unread_count(account, mailbox) {
            Some(n) => n < u32::MAX,
            None => true,
        }
    }

    /// Whether a change of flags can be counted.
    pub(crate) fn flags_fit(&self, account: &str, mailbox: &str, uid: u32, flags: &Vec<String>) -> (r:
        bool)
        ensures
            r == self@.flags_fit(account@, mailbox@, uid, flags.deep_view()),
    {
        match self.listed_seen(account, mailbox, uid) {
            Some(true) => imap::lists_flag(flags, imap::FLAG_SEEN) || self.room_for_one(
                account,
                mailbox,
            ),
            _ => true,
        }
    }

    /// Whether a move can be counted.
    pub(crate) fn move_fits(&self, account: &str, mailbox: &str, uid: u32, dest: &str) -> (r: bool)
        ensures
            r == self@.move_fits(account@, mailbox@, uid, dest@),
    {
        match self.listed_seen(account, mailbox, uid) {
            Some(false) => text::same(mailbox, dest) || self.room_for_one(account, dest),
            _ => true,
        }
    }

    /// Whether an account's mailbox is the one listed.
    fn on_screen(&self, account: &str, mailbox: &str) -> (r: bool)
        ensures
            r == self@.is_on_screen(account@, mailbox@),
    {
        self.shows(account) && text::same(mailbox, self.selected_mailbox.as_str())
    }

    /// Whether a message of the mailbox listed was read, if it is listed.
    fn listed_seen(&self, account: &str, mailbox: &str, uid: u32) -> (r: Option<bool>)
        ensures
            r == self@.was_seen(account@, mailbox@, uid),
    {
        if !self.on_screen(account, mailbox) {
            return None;
        }
        match selection::find_uid(&self.headers, uid) {
            Some(i) => {
                assert(self@.headers[i as int] == self.headers@[i as int]@);
                Some(self.headers[i].is_seen())
            },
            None => None,
        }
    }

    /// Gives a message other flags in the lists on screen.
    fn reflag_lists(&mut self, account: &str, mailbox: &str, uid: u32, flags: &Vec<String>)
        ensures
            final(self)@ == old(self)@.lists_reflagged(account@, mailbox@, uid, flags.deep_view()),
    {
        if self.on_screen(account, mailbox) {
            reflag(&mut self.headers, uid, flags);
        }
        let mut results = None;
        std::mem::swap(&mut results, &mut self.search_results);
        if let Some(list) = results {
            let mut list = list;
            reflag_hits(&mut list, &self.search_origins, account, mailbox, uid, flags);
            self.search_results = Some(list);
        }
    }

    /// A message's flags have changed.
    pub(crate) fn on_flags_updated(
        &mut self,
        account: &str,
        mailbox: String,
        uid: u32,
        flags: Vec<String>,
    )
        requires
            old(self)@.flags_fit(account@, mailbox@, uid, flags.deep_view()),
        ensures
            final(self)@ == old(self)@.on_flags_updated(account@, mailbox@, uid, flags.deep_view()),
    {
        let was_seen = self.listed_seen(account, mailbox.as_str(), uid);
        let now_seen = imap::lists_flag(&flags, imap::FLAG_SEEN);
        self.reflag_lists(account, mailbox.as_str(), uid, &flags);
        if let Some(was_seen) = was_seen {
            if was_seen && !now_seen {
                self.count_up(account, mailbox.as_str());
            } else if !was_seen && now_seen {
                self.count_down(account, mailbox.as_str());
            }
        }
        self.emit(
            Effect::Db(
                DbCommand::UpdateFlags { account_id: account.to_owned(), mailbox, uid, flags },
            ),
        );
    }

    /// Takes a message out of the lists on screen.
    fn unlist(&mut self, account: &str, mailbox: &str, uid: u32)
        ensures
            final(self)@ == old(self)@.lists_without(account@, mailbox@, uid),
    {
        if self.on_screen(account, mailbox) {
            let mut list: Vec<MailHeader> = Vec::new();
            std::mem::swap(&mut list, &mut self.headers);
            self.headers = remove_messages(list, uid);
        }
        let mut results = None;
        std::mem::swap(&mut results, &mut self.search_results);
        if let Some(list) = results {
            let (kept, kept_origins) = remove_hits(
                &list,
                &self.search_origins,
                account,
                mailbox,
                uid,
            );
            self.search_results = Some(kept);
            self.search_origins = kept_origins;
        }
    }

    /// Takes a message of the account shown out of the selection.
    fn deselect(&mut self, account: &str, uid: u32, dest: &str)
        ensures
            final(self)@ == old(self)@.deselected(account@, uid, dest@),
    {
        if self.shows(account) {
            let _ = selection::remove_uid(&mut self.selected_uids, uid);
            let open = match self.selected_uid {
                Some(u) => u == uid,
                None => false,
            };
            if open {
                self.selected_uid = None;
                self.forget_open();
                self.show_page("<i>Message moved.</i>".to_owned());
            }
            let mut status = "Moved to ".to_owned();
            status.append(dest);
            self.set_status(status);
        }
    }

    /// A message has moved.
    pub(crate) fn on_moved(&mut self, account: &str, mailbox: String, uid: u32, dest: &str)
        requires
            old(self)@.move_fits(account@, mailbox@, uid, dest@),
        ensures
            final(self)@ == old(self)@.on_moved(account@, mailbox@, uid, dest@),
    {
        let ghost start = self@;
        let unread = match self.listed_seen(account, mailbox.as_str(), uid) {
            Some(seen) => !seen,
            None => false,
        };
        self.unlist(account, mailbox.as_str(), uid);
        self.deselect(account, uid, dest);
        let ghost mid = self@;
        assert(mid.accounts == start.accounts);
        if unread {
            self.count_down(account, mailbox.as_str());
            proof {
                lemma_count_down_room(mid, account@, mailbox@, dest@);
            }
            self.count_up(account, dest);
        }
        self.emit(
            Effect::Db(
                DbCommand::RemoveMessage { account_id: account.to_owned(), mailbox, uid },
            ),
        );
    }
}

/// Counting one message less makes no count larger.
proof fn lemma_count_down_room(s: AppModel, account: Text, mailbox: Text, dest: Text)
    requires
        mailbox != dest ==> s.count_has_room(account, dest),
    ensures
        s.one_less_unread(account, mailbox).count_has_room(account, dest),
{
    let t = s.one_less_unread(account, mailbox);
    if s.count(account, mailbox) is Some {
        let i = s.index_of(account);
        app::lemma_account_index(s.accounts, account);
        app::lemma_account_index_update(s.accounts, i, t.accounts[i], account);
    }
}

} // verus!
