//! The main window's keyboard shortcuts.

use vstd::prelude::*;
use vstd::string::*;
use crate::app;
use crate::compose;
use crate::imap::SpecialUse;
use crate::state::{AppModel, Effect, EffectModel, EsMailApp};
use crate::text::Text;

verus! {

broadcast use vstd::string::group_string_axioms;

/// The shortcuts pressed in one frame.
#[derive(Debug, Clone, Copy, PartialEq, Eq, Structural)]
pub struct Keys {
    /// Ctrl+F: put the caret into the search box.
    pub focus_search: bool,
    /// Ctrl+N: write a new message.
    pub compose: bool,
    /// J: open the next message.
    pub next: bool,
    /// K: open the previous message.
    pub prev: bool,
    /// Enter: open the selected message again.
    pub enter: bool,
    /// R: reply.
    pub reply: bool,
    /// A: archive.
    pub archive: bool,
    /// F: star or unstar.
    pub star: bool,
    /// Delete or Backspace: move to the trash.
    pub delete: bool,
}

/// The keys that may be down in a frame, before they mean anything.
#[derive(Debug, Clone, Copy, PartialEq, Eq, Structural)]
pub struct Pressed {
    pub f: bool,
    pub n: bool,
    pub j: bool,
    pub k: bool,
    pub enter: bool,
    pub r: bool,
    pub a: bool,
    pub delete: bool,
    pub backspace: bool,
}

/// Whose message it is: the sender's address, and whether images from there
/// are loaded.
pub struct Sender {
    pub address: Option<String>,
    pub trusted: bool,
}

/// What a [`Sender`] holds.
#[verifier::ext_equal]
pub struct SenderModel {
    pub address: Option<Text>,
    pub trusted: bool,
}

impl View for Sender {
    type V = SenderModel;

    open spec fn view(&self) -> SenderModel {
        SenderModel { address: self.address.deep_view(), trusted: self.trusted }
    }
}

impl DeepView for Sender {
    type V = SenderModel;

    open spec fn deep_view(&self) -> SenderModel {
        self.view()
    }
}

/// Which shortcuts the keys pressed mean. None while the search box has the
/// caret.
pub open spec fn shortcuts_of(search_focused: bool, ctrl: bool, p: Pressed) -> Keys {
    let on = !search_focused;
    Keys {
        focus_search: on && ctrl && p.f,
        compose: on && ctrl && p.n,
        next: on && !ctrl && p.j,
        prev: on && !ctrl && p.k,
        enter: on && !ctrl && p.enter,
        reply: on && !ctrl && p.r,
        archive: on && !ctrl && p.a,
        star: on && !ctrl && p.f,
        delete: on && !ctrl && (p.delete || p.backspace),
    }
}

/// Which shortcuts the keys pressed mean.
pub fn shortcuts(search_focused: bool, ctrl: bool, p: Pressed) -> (r: Keys)
    ensures
        r == shortcuts_of(search_focused, ctrl, p),
{
    let on = !search_focused;
    Keys {
        focus_search: on && ctrl && p.f,
        compose: on && ctrl && p.n,
        next: on && !ctrl && p.j,
        prev: on && !ctrl && p.k,
        enter: on && !ctrl && p.enter,
        reply: on && !ctrl && p.r,
        archive: on && !ctrl && p.a,
        star: on && !ctrl && p.f,
        delete: on && !ctrl && (p.delete || p.backspace),
    }
}

// ── What each shortcut does ─────────────────────────────────────────────────

/// Whose message stands at a position of the list on screen, which `senders`
/// follows.
pub open spec fn sender_at(senders: Seq<SenderModel>, i: int) -> SenderModel {
    if 0 <= i < senders.len() {
        senders[i]
    } else {
        SenderModel { address: None, trusted: false }
    }
}

/// Whose message stands at a position of the list on screen.
fn find_sender(senders: &Vec<Sender>, i: usize) -> (r: Sender)
    ensures
        r@ == sender_at(senders.deep_view(), i as int),
{
    if i < senders.len() {
        assert(senders.deep_view()[i as int] == senders@[i as int]@);
        Sender { address: compose::copy_option(&senders[i].address), trusted: senders[i].trusted }
    } else {
        Sender { address: None, trusted: false }
    }
}

impl AppModel {
    /// The caret goes into the search box.
    #[verifier::opaque]
    pub open spec fn key_search(self, on: bool) -> AppModel {
        if on {
            self.emit(EffectModel::FocusSearch)
        } else {
            self
        }
    }

    /// A new message is written.
    #[verifier::opaque]
    pub open spec fn key_compose(self, on: bool) -> AppModel {
        if on {
            self.new_message()
        } else {
            self
        }
    }

    /// The next or previous message is opened.
    #[verifier::opaque]
    pub open spec fn key_step(
        self,
        next: bool,
        prev: bool,
        senders: Seq<SenderModel>,
        now: u64,
    ) -> AppModel {
        if (next || prev) && self.shown_list().len() > 0 {
            let i = self.step_index(next);
            let uid = self.shown_list()[i].uid;
            let sender = sender_at(senders, i);
            self.selected_alone(uid).opened_at(i, sender.address, sender.trusted, now)
        } else {
            self
        }
    }

    /// Whose message is open: as the list on screen tells, or, if the message is
    /// not listed there, as it was when it was opened. `open_trusted` tells
    /// whether that sender is trusted.
    pub open spec fn open_sender(self, senders: Seq<SenderModel>, open_trusted: bool) -> SenderModel {
        if self.open_index() >= 0 {
            sender_at(senders, self.open_index())
        } else {
            SenderModel { address: self.current_sender, trusted: open_trusted }
        }
    }

    /// The selected message is opened again.
    #[verifier::opaque]
    pub open spec fn key_enter(
        self,
        on: bool,
        senders: Seq<SenderModel>,
        open_trusted: bool,
        now: u64,
    ) -> AppModel {
        match self.selected_uid {
            Some(uid) if on => {
                let sender = self.open_sender(senders, open_trusted);
                self.opened(
                    uid,
                    self.search_results is Some,
                    sender.address,
                    sender.trusted,
                    now,
                )
            },
            _ => self,
        }
    }

    /// The open message is replied to.
    #[verifier::opaque]
    pub open spec fn key_reply(self, on: bool) -> AppModel {
        match self.selected_header() {
            Some(header) if on => self.replying(header, seq![]),
            _ => self,
        }
    }

    /// The selected messages are moved to a mailbox with a special role.
    #[verifier::opaque]
    pub open spec fn key_move(self, on: bool, want: SpecialUse, default: Text) -> AppModel {
        if on {
            self.moves_wanted_on(self.targets(), self.special_mailbox(want, default))
        } else {
            self
        }
    }

    /// The selected messages are starred or unstarred.
    #[verifier::opaque]
    pub open spec fn key_star(self, on: bool) -> AppModel {
        if on {
            self.stars_toggled_on(self.targets())
        } else {
            self
        }
    }

    /// The shortcuts that look for something or write something new.
    #[verifier::opaque]
    pub open spec fn keys_begun(self, keys: Keys) -> AppModel {
        self.key_search(keys.focus_search).key_compose(keys.compose)
    }

    /// The shortcuts that open a message.
    #[verifier::opaque]
    pub open spec fn keys_opened(
        self,
        keys: Keys,
        senders: Seq<SenderModel>,
        open_trusted: bool,
        now: u64,
    ) -> AppModel {
        self.key_step(keys.next, keys.prev, senders, now).key_enter(
            keys.enter,
            senders,
            open_trusted,
            now,
        )
    }

    /// The shortcuts that act on the selected messages.
    #[verifier::opaque]
    pub open spec fn keys_acted(self, keys: Keys) -> AppModel {
        self.key_move(keys.archive, SpecialUse::Archive, app::ARCHIVE_MAILBOX@).key_move(
            keys.delete,
            SpecialUse::Trash,
            app::TRASH_MAILBOX@,
        ).key_star(keys.star)
    }

    /// The program after the shortcuts of one frame.
    pub open spec fn on_keys(
        self,
        keys: Keys,
        senders: Seq<SenderModel>,
        open_trusted: bool,
        now: u64,
    ) -> AppModel {
        self.keys_begun(keys).keys_opened(keys, senders, open_trusted, now).key_reply(
            keys.reply,
        ).keys_acted(keys)
    }

    /// Whether there are ids for the shortcuts of one frame.
    pub open spec fn ids_for_keys(self) -> bool {
        self.has_ids((3 * self.targets().len() + 5) as nat)
    }
}

impl EsMailApp {
    /// The caret goes into the search box.
    fn key_search(&mut self, on: bool)
        ensures
            final(self)@ == old(self)@.key_search(on),
    {
        reveal(AppModel::key_search);
        if on {
            self.emit(Effect::FocusSearch);
        }
    }

    /// A new message is written.
    fn key_compose(&mut self, on: bool)
        requires
            old(self)@.has_ids(1),
        ensures
            final(self)@ == old(self)@.key_compose(on),
    {
        reveal(AppModel::key_compose);
        if on {
            self.compose_new();
        }
    }

    /// The next or previous message is opened.
    fn key_step(&mut self, next: bool, prev: bool, senders: &Vec<Sender>, now: u64)
        requires
            old(self)@.has_ids(1),
        ensures
            final(self)@ == old(self)@.key_step(next, prev, senders.deep_view(), now),
    {
        reveal(AppModel::key_step);
        if next || prev {
            let ghost start = self@;
            if let Some(i) = self.step(next) {
                assert(self@.shown_list() == start.shown_list());
                let sender = find_sender(senders, i);
                self.open_listed(i, sender.address, sender.trusted, now);
            }
        }
    }

    /// The selected message is opened again.
    fn key_enter(&mut self, on: bool, senders: &Vec<Sender>, open_trusted: bool, now: u64)
        requires
            old(self)@.has_ids(1),
        ensures
            final(self)@ == old(self)@.key_enter(on, senders.deep_view(), open_trusted, now),
    {
        reveal(AppModel::key_enter);
        if on {
            if let Some(uid) = self.selected_uid {
                let sender = match self.find_open() {
                    Some(i) => find_sender(senders, i),
                    None => Sender {
                        address: compose::copy_option(&self.current_sender),
                        trusted: open_trusted,
                    },
                };
                let is_search = self.search_results.is_some();
                self.open_message(uid, is_search, sender.address, sender.trusted, now);
            }
        }
    }

    /// The open message is replied to.
    fn key_reply(&mut self, on: bool)
        requires
            old(self)@.has_ids(1),
        ensures
            final(self)@ == old(self)@.key_reply(on),
    {
        reveal(AppModel::key_reply);
        if on {
            if let Some(header) = self.selected_header() {
                self.reply_to(&header);
            }
        }
    }

    /// The selected messages are moved to a mailbox with a special role.
    fn key_move(&mut self, on: bool, want: SpecialUse, default: &str)
        requires
            old(self)@.next_req_id + old(self)@.targets().len() <= u64::MAX,
        ensures
            final(self)@ == old(self)@.key_move(on, want, default@),
    {
        reveal(AppModel::key_move);
        if on {
            let dest = self.special_use_mailbox(want, default);
            self.move_selection(dest.as_str());
        }
    }

    /// The selected messages are starred or unstarred.
    fn key_star(&mut self, on: bool)
        requires
            old(self)@.next_req_id + old(self)@.targets().len() <= u64::MAX,
        ensures
            final(self)@ == old(self)@.key_star(on),
    {
        reveal(AppModel::key_star);
        if on {
            self.toggle_star_on_selection();
        }
    }

    /// Whether there are ids for the shortcuts of one frame.
    pub fn ids_for_keys(&self) -> (r: bool)
        ensures
            r == self@.ids_for_keys(),
    {
        let targets = self.action_targets();
        let n: u128 = 3 * (targets.len() as u128) + 5;
        let max: u128 = u64::MAX as u128;
        (self.next_req_id as u128) + n <= max && (self.next_banner_id as u128) + n <= max && (
        self.next_compose_id as u128) + n <= max
    }

    /// Does what the shortcuts of one frame ask for. `senders` tells whose
    /// each message of the list on screen is, and `open_trusted` whether the open
    /// message's sender is trusted.
    pub fn handle_keyboard_shortcuts(
        &mut self,
        keys: Keys,
        senders: &Vec<Sender>,
        open_trusted: bool,
        now: u64,
    )
        requires
            old(self)@.ids_for_keys(),
        ensures
            final(self)@ == old(self)@.on_keys(keys, senders.deep_view(), open_trusted, now),
    {
        self.begin_keys(keys);
        self.open_keys(keys, senders, open_trusted, now);
        proof {
            lemma_reply_ids(self@, keys.reply);
        }
        self.key_reply(keys.reply);
        self.act_keys(keys);
    }

    /// The shortcuts that look for something or write something new.
    fn begin_keys(&mut self, keys: Keys)
        requires
            old(self)@.has_ids(1),
        ensures
            final(self)@ == old(self)@.keys_begun(keys),
            within(old(self)@, final(self)@, 0, 0, 1),
            final(self)@.targets() == old(self)@.targets(),
    {
        reveal(AppModel::keys_begun);
        proof {
            lemma_search_ids(self@, keys.focus_search);
        }
        self.key_search(keys.focus_search);
        proof {
            lemma_compose_ids(self@, keys.compose);
        }
        self.key_compose(keys.compose);
    }

    /// The shortcuts that open a message.
    fn open_keys(&mut self, keys: Keys, senders: &Vec<Sender>, open_trusted: bool, now: u64)
        requires
            old(self)@.has_ids(2),
        ensures
            final(self)@ == old(self)@.keys_opened(keys, senders.deep_view(), open_trusted, now),
            within(old(self)@, final(self)@, 2, 1, 0),
            final(self)@.targets().len() <= old(self)@.targets().len() + 1,
    {
        reveal(AppModel::keys_opened);
        proof {
            lemma_step_ids(self@, keys.next, keys.prev, senders.deep_view(), now);
        }
        self.key_step(keys.next, keys.prev, senders, now);
        proof {
            lemma_enter_ids(self@, keys.enter, senders.deep_view(), open_trusted, now);
        }
        self.key_enter(keys.enter, senders, open_trusted, now);
    }

    /// The shortcuts that act on the selected messages.
    fn act_keys(&mut self, keys: Keys)
        requires
            old(self)@.next_req_id + 3 * old(self)@.targets().len() <= u64::MAX,
        ensures
            final(self)@ == old(self)@.keys_acted(keys),
    {
        reveal(AppModel::keys_acted);
        proof {
            lemma_move_ids(self@, keys.archive, SpecialUse::Archive, app::ARCHIVE_MAILBOX@);
        }
        self.key_move(keys.archive, SpecialUse::Archive, app::ARCHIVE_MAILBOX);
        proof {
            lemma_move_ids(self@, keys.delete, SpecialUse::Trash, app::TRASH_MAILBOX@);
        }
        self.key_move(keys.delete, SpecialUse::Trash, app::TRASH_MAILBOX);
        self.key_star(keys.star);
    }
}

// ── How many ids they take ──────────────────────────────────────────────────

/// Whether `b` is at most so many ids of each kind further than `a`.
spec fn within(a: AppModel, b: AppModel, requests: nat, banners: nat, composes: nat) -> bool {
    &&& b.next_req_id <= a.next_req_id + requests
    &&& b.next_banner_id <= a.next_banner_id + banners
    &&& b.next_compose_id <= a.next_compose_id + composes
}

proof fn lemma_search_ids(s: AppModel, on: bool)
    ensures
        within(s, s.key_search(on), 0, 0, 0),
        s.key_search(on).targets() == s.targets(),
{
    reveal(AppModel::key_search);
}

proof fn lemma_compose_ids(s: AppModel, on: bool)
    requires
        s.has_ids(1),
    ensures
        within(s, s.key_compose(on), 0, 0, 1),
        s.key_compose(on).targets() == s.targets(),
{
    reveal(AppModel::key_compose);
}

proof fn lemma_reply_ids(s: AppModel, on: bool)
    requires
        s.has_ids(1),
    ensures
        within(s, s.key_reply(on), 0, 0, 1),
        s.key_reply(on).targets() == s.targets(),
{
    reveal(AppModel::key_reply);
}

proof fn lemma_move_ids(s: AppModel, on: bool, want: SpecialUse, default: Text)
    requires
        s.next_req_id + s.targets().len() <= u64::MAX,
    ensures
        within(s, s.key_move(on, want, default), s.targets().len(), 0, 0),
        s.key_move(on, want, default).targets() == s.targets(),
{
    reveal(AppModel::key_move);
    app::lemma_moves_wanted_on(s, s.targets(), s.special_mailbox(want, default));
}

/// Opening a message takes one request id.
proof fn lemma_opened_ids(
    s: AppModel,
    uid: u32,
    is_search: bool,
    sender: Option<Text>,
    trusted: bool,
    now: u64,
)
    requires
        s.has_ids(1),
    ensures
        within(s, s.opened(uid, is_search, sender, trusted, now), 1, 0, 0),
        s.opened(uid, is_search, sender, trusted, now).selected_uids == s.selected_uids,
        s.opened(uid, is_search, sender, trusted, now).selected_uid == Some(uid),
{
    let a = s.opening(uid, sender, trusted);
    if is_search {
        assert(within(a, a.cached_body_wanted(uid), 1, 0, 0));
    } else {
        assert(within(a, a.body_wanted(a.selected_mailbox, uid), 1, 0, 0));
    }
}

/// Opening a message at a position takes at most one id of each kind.
proof fn lemma_opened_at_ids(s: AppModel, i: int, sender: Option<Text>, trusted: bool, now: u64)
    requires
        s.has_ids(1),
    ensures
        within(s, s.opened_at(i, sender, trusted, now), 1, 1, 0),
        s.opened_at(i, sender, trusted, now).selected_uids == s.selected_uids,
{
    if s.search_results is Some {
        if s.has_hit(i) && s.has_account(s.search_origins[i].0) {
            let account = s.search_origins[i].0;
            let mailbox = s.search_origins[i].1;
            let uid = s.search_results->0[i].uid;
            if s.is_active(account) && s.selected_mailbox == mailbox {
                lemma_opened_ids(s, uid, true, sender, trusted, now);
            } else {
                let moved = AppModel {
                    headers_stale: true,
                    active: Some(account),
                    selected_mailbox: mailbox,
                    ..s
                };
                lemma_opened_ids(moved, uid, true, sender, trusted, now);
            }
        }
    } else {
        lemma_opened_ids(s, s.headers[i].uid, false, sender, trusted, now);
    }
}

/// Opening the next or previous message takes at most one id of each kind, and
/// leaves at most one message to act on.
proof fn lemma_step_ids(s: AppModel, next: bool, prev: bool, senders: Seq<SenderModel>, now: u64)
    requires
        s.has_ids(1),
    ensures
        within(s, s.key_step(next, prev, senders, now), 1, 1, 0),
        s.key_step(next, prev, senders, now).targets().len() <= s.targets().len() + 1,
{
    reveal(AppModel::key_step);
    if (next || prev) && s.shown_list().len() > 0 {
        let i = s.step_index(next);
        let uid = s.shown_list()[i].uid;
        let sender = sender_at(senders, i);
        let alone = s.selected_alone(uid);
        assert(alone.has_ids(1));
        lemma_opened_at_ids(alone, i, sender.address, sender.trusted, now);
    }
}

/// Opening a message again takes one request id.
proof fn lemma_enter_ids(
    s: AppModel,
    on: bool,
    senders: Seq<SenderModel>,
    open_trusted: bool,
    now: u64,
)
    requires
        s.has_ids(1),
    ensures
        within(s, s.key_enter(on, senders, open_trusted, now), 1, 0, 0),
        s.key_enter(on, senders, open_trusted, now).targets() == s.targets(),
{
    reveal(AppModel::key_enter);
    if on && s.selected_uid is Some {
        let uid = s.selected_uid->0;
        let sender = s.open_sender(senders, open_trusted);
        lemma_opened_ids(
            s,
            uid,
            s.search_results is Some,
            sender.address,
            sender.trusted,
            now,
        );
    }
}

} // verus!
