//! What the main window's controls do: moving through the message list,
//! selecting, paging, searching, writing, and deciding about remote images.

use vstd::prelude::*;
use vstd::string::*;
use crate::app;
use crate::compose;
use crate::compose::{ComposeModel, ComposeState};
use crate::compose_window::Focus;
use crate::db::{DbCommand, DbCommandModel};
use crate::imap::{MailHeader, MailHeaderModel};
use crate::selection;
use crate::state::{AppModel, Effect, EffectModel, EsMailApp};
use crate::text::Text;

verus! {

broadcast use vstd::string::group_string_axioms;

// ── Moving through the list ─────────────────────────────────────────────────

impl AppModel {
    /// The position of the open message in the list on screen, or -1. Among
    /// search results it is the one that lives in the open mailbox.
    pub open spec fn open_index(self) -> int {
        match self.selected_uid {
            Some(uid) => match self.search_results {
                Some(results) => app::open_hit_index(self, results, uid),
                None => selection::uid_index(self.headers, uid),
            },
            None => -1,
        }
    }

    /// The position one further, or one back; the first if none is open.
    pub open spec fn step_index(self, next: bool) -> int {
        let i = self.open_index();
        let last = self.shown_list().len() - 1;
        if i < 0 {
            0
        } else if next {
            if i < last {
                i + 1
            } else {
                last
            }
        } else if i > 0 {
            i - 1
        } else {
            0
        }
    }

    /// A single message is selected.
    pub open spec fn selected_alone(self, uid: u32) -> AppModel {
        AppModel { selected_uids: Set::empty(), select_anchor: Some(uid), ..self }
    }

    /// The message at a position of the list on screen is opened.
    pub open spec fn opened_at(self, i: int, sender: Option<Text>, trusted: bool, now: u64) -> AppModel {
        if self.search_results is Some {
            self.hit_opened(i, sender, trusted, now)
        } else {
            self.opened(self.headers[i].uid, false, sender, trusted, now)
        }
    }

    /// Whether a click extends the selection. Hits from several mailboxes are
    /// opened one at a time, and a range needs a place to start from.
    pub open spec fn extends(self, shift: bool, ctrl: bool) -> bool {
        let several = self.search_results is Some && self.search_all_accounts;
        !several && ((shift && self.select_anchor is Some) || ctrl)
    }

    /// A message is added to the selection, or taken out. A selection that was
    /// empty starts from the open message, and the next range starts here.
    pub open spec fn toggled(self, uid: u32) -> AppModel {
        let before = if self.selected_uids.is_empty() && self.selected_uid is Some {
            self.selected_uids.insert(self.selected_uid->0)
        } else {
            self.selected_uids
        };
        AppModel {
            selected_uids: if before.contains(uid) {
                before.remove(uid)
            } else {
                before.insert(uid)
            },
            select_anchor: if self.selected_uids.is_empty() {
                Some(uid)
            } else {
                self.select_anchor
            },
            ..self
        }
    }

    /// The selection after a click on a message.
    pub open spec fn clicked(self, i: int, shift: bool, ctrl: bool) -> AppModel {
        let list = self.shown_list();
        let uid = list[i].uid;
        if !self.extends(shift, ctrl) {
            self.selected_alone(uid)
        } else if shift && self.select_anchor is Some {
            AppModel {
                selected_uids: selection::range_of(list, self.select_anchor->0, uid),
                ..self
            }
        } else {
            self.toggled(uid)
        }
    }

    /// Whether a click on a message shows it: a plain click does, and one that
    /// makes it the only member of a selection where there was none.
    pub open spec fn click_opens(self, i: int, shift: bool, ctrl: bool) -> bool {
        let after = self.clicked(i, shift, ctrl).selected_uids;
        !self.extends(shift, ctrl) || (self.selected_uids.is_empty() && after.len() == 1
            && after.contains(self.shown_list()[i].uid))
    }

    /// A message was clicked: the selection changes, and the message is shown if
    /// the click is one that shows it.
    pub open spec fn message_clicked(
        self,
        i: int,
        shift: bool,
        ctrl: bool,
        sender: Option<Text>,
        trusted: bool,
        now: u64,
    ) -> AppModel {
        if self.click_opens(i, shift, ctrl) {
            self.clicked(i, shift, ctrl).opened_at(i, sender, trusted, now)
        } else {
            self.clicked(i, shift, ctrl)
        }
    }
}

impl EsMailApp {
    /// The position of the open message in the list on screen.
    pub(crate) fn find_open(&self) -> (r: Option<usize>)
        ensures
            match r {
                Some(i) => i == self@.open_index() && i < self@.shown_list().len(),
                None => self@.open_index() == -1,
            },
    {
        match self.selected_uid {
            Some(uid) => match &self.search_results {
                Some(results) => self.find_open_hit(results, uid),
                None => selection::find_uid(&self.headers, uid),
            },
            None => None,
        }
    }

    /// How many messages the list on screen has.
    pub fn shown_len(&self) -> (r: usize)
        ensures
            r == self@.shown_list().len(),
    {
        match &self.search_results {
            Some(results) => results.len(),
            None => self.headers.len(),
        }
    }

    /// The UID at a position of the list on screen.
    pub fn shown_uid(&self, i: usize) -> (r: u32)
        requires
            i < self@.shown_list().len(),
        ensures
            r == self@.shown_list()[i as int].uid,
    {
        match &self.search_results {
            Some(results) => {
                assert(results.deep_view()[i as int] == results@[i as int]@);
                results[i].uid
            },
            None => {
                assert(self.headers.deep_view()[i as int] == self.headers@[i as int]@);
                self.headers[i].uid
            },
        }
    }

    /// Selects a single message.
    fn select_alone(&mut self, uid: u32)
        ensures
            final(self)@ == old(self)@.selected_alone(uid),
    {
        self.selected_uids.clear();
        self.select_anchor = Some(uid);
    }

    /// Moves the selection one message on or back; tells which one to open.
    pub fn step(&mut self, next: bool) -> (r: Option<usize>)
        ensures
            match r {
                Some(i) => {
                    &&& i == old(self)@.step_index(next) < old(self)@.shown_list().len()
                    &&& final(self)@ == old(self)@.selected_alone(
                        old(self)@.shown_list()[i as int].uid,
                    )
                },
                None => old(self)@.shown_list().len() == 0 && final(self)@ == old(self)@,
            },
    {
        let n: usize = self.shown_len();
        if n == 0 {
            return None;
        }
        let i: usize = match self.find_open() {
            Some(i) => if next {
                if i < n - 1 {
                    i + 1
                } else {
                    n - 1
                }
            } else if i > 0 {
                i - 1
            } else {
                0
            },
            None => 0,
        };
        let uid: u32 = self.shown_uid(i);
        self.select_alone(uid);
        Some(i)
    }

    /// Opens the message at a position of the list on screen.
    pub fn open_listed(&mut self, i: usize, sender: Option<String>, trusted: bool, now: u64)
        requires
            old(self)@.has_ids(1),
            i < old(self)@.shown_list().len(),
        ensures
            final(self)@ == old(self)@.opened_at(i as int, sender.deep_view(), trusted, now),
    {
        if self.search_results.is_some() {
            self.open_search_hit(i, sender, trusted, now);
        } else {
            let uid: u32 = self.shown_uid(i);
            self.open_message(uid, false, sender, trusted, now);
        }
    }

    /// Selects the messages from one to another in the list on screen.
    fn select_up_to(&mut self, anchor: u32, uid: u32)
        ensures
            final(self)@ == (AppModel {
                selected_uids: selection::range_of(old(self)@.shown_list(), anchor, uid),
                ..old(self)@
            }),
    {
        let uids = match &self.search_results {
            Some(results) => selection::select_range(results, anchor, uid),
            None => selection::select_range(&self.headers, anchor, uid),
        };
        self.selected_uids = uids;
    }

    /// Adds a message to the selection, or takes it out.
    fn toggle_selected(&mut self, uid: u32)
        ensures
            final(self)@ == old(self)@.toggled(uid),
    {
        if self.selected_uids.is_empty() {
            if let Some(open) = self.selected_uid {
                selection::insert_uid(&mut self.selected_uids, open);
            }
            self.select_anchor = Some(uid);
        }
        if selection::has_uid(&self.selected_uids, uid) {
            let _ = selection::remove_uid(&mut self.selected_uids, uid);
        } else {
            selection::insert_uid(&mut self.selected_uids, uid);
        }
    }

    /// Changes the selection for a click on a message; tells whether the click
    /// extends the selection.
    fn click(&mut self, i: usize, shift: bool, ctrl: bool) -> (r: bool)
        requires
            i < old(self)@.shown_list().len(),
        ensures
            final(self)@ == old(self)@.clicked(i as int, shift, ctrl),
            r == old(self)@.extends(shift, ctrl),
    {
        let uid: u32 = self.shown_uid(i);
        let several = self.search_results.is_some() && self.search_all_accounts;
        let anchor = self.select_anchor;
        match anchor {
            Some(anchor) if !several && shift => {
                self.select_up_to(anchor, uid);
                true
            },
            _ => {
                if !several && ctrl {
                    self.toggle_selected(uid);
                    true
                } else {
                    self.select_alone(uid);
                    false
                }
            },
        }
    }

    /// A message of the list on screen was clicked: selects it, and shows it if
    /// the click was a plain one or made it the only member of a selection where
    /// there was none. `sender` and `trusted` are the message's sender and
    /// whether their remote images are loaded.
    pub fn click_message(
        &mut self,
        i: usize,
        shift: bool,
        ctrl: bool,
        sender: Option<String>,
        trusted: bool,
        now: u64,
    )
        requires
            old(self)@.has_ids(1),
            i < old(self)@.shown_list().len(),
        ensures
            final(self)@ == old(self)@.message_clicked(
                i as int,
                shift,
                ctrl,
                sender.deep_view(),
                trusted,
                now,
            ),
    {
        let uid: u32 = self.shown_uid(i);
        let fresh = self.selected_uids.is_empty();
        let extends = self.click(i, shift, ctrl);
        if !extends || (fresh && selection::count(&self.selected_uids) == 1 && selection::has_uid(
            &self.selected_uids,
            uid,
        )) {
            self.open_listed(i, sender, trusted, now);
        }
    }
}

impl AppModel {
    /// Whether the message at a position of the list on screen can be opened: a
    /// search hit can if its account is connected.
    pub open spec fn can_open(self, i: int) -> bool {
        self.search_results is Some ==> self.has_hit(i) && self.has_account(self.search_origins[i].0)
    }
}

/// The message shown is the one that was last clicked plainly, or the only
/// member of a selection that a click began where there was none. A plain click
/// selects nothing else and is where the next range starts; any other click on
/// a selection leaves the message shown alone.
pub proof fn law_clicks_and_the_message_shown(
    s: AppModel,
    i: int,
    shift: bool,
    ctrl: bool,
    sender: Option<Text>,
    trusted: bool,
    now: u64,
)
    requires
        0 <= i < s.shown_list().len(),
        s.can_open(i),
    ensures
        ({
            let uid = s.shown_list()[i].uid;
            let t = s.message_clicked(i, shift, ctrl, sender, trusted, now);
            let alone = s.selected_uids.is_empty() && t.selected_uids == set![uid];
            &&& t.selected_uid == (if !s.extends(shift, ctrl) || alone {
                Some(uid)
            } else {
                s.selected_uid
            })
            &&& !s.extends(shift, ctrl) ==> t.selected_uids == Set::<u32>::empty()
                && t.select_anchor == Some(uid)
            &&& s.extends(shift, ctrl) && !alone ==> t.current_message_html
                == s.current_message_html && t.effects == s.effects
        }),
{
    let uid = s.shown_list()[i].uid;
    let c = s.clicked(i, shift, ctrl);
    let t = s.message_clicked(i, shift, ctrl, sender, trusted, now);
    assert(c.shown_list() == s.shown_list());
    assert(c.can_open(i));
    assert(c.opened_at(i, sender, trusted, now).selected_uid == Some(uid));
    assert(c.opened_at(i, sender, trusted, now).selected_uids == c.selected_uids);
    assert(c.opened_at(i, sender, trusted, now).select_anchor == c.select_anchor);
    if c.selected_uids == set![uid] {
        assert(set![uid].len() == 1);
    }
    if c.selected_uids.len() == 1 && c.selected_uids.contains(uid) && s.selected_uids.is_empty() {
        if s.select_anchor is Some {
            selection::law_range_selection(s.shown_list(), s.select_anchor->0, uid);
        }
        assert(s.selected_uids =~= Set::empty());
        let rest = c.selected_uids.remove(uid);
        assert(c.selected_uids.finite());
        assert(rest.len() == 0);
        assert(rest =~= Set::empty());
        assert(c.selected_uids =~= set![uid]);
    }
}

/// Where a range starts: at the message last clicked plainly, or at the one that
/// began the selection. Adding to a selection or taking out of it does not move
/// that place, so a later range still covers it, if it is listed, and the message clicked.
pub proof fn law_the_start_of_a_range_stays(s: AppModel, i: int, j: int)
    requires
        0 <= i < s.shown_list().len(),
        0 <= j < s.shown_list().len(),
        s.extends(false, true),
        !s.selected_uids.is_empty(),
    ensures
        s.clicked(i, false, true).select_anchor == s.select_anchor,
        s.select_anchor is Some ==> {
            let t = s.clicked(i, false, true).clicked(j, true, false);
            &&& t.selected_uids == selection::range_of(
                s.shown_list(),
                s.select_anchor->0,
                s.shown_list()[j].uid,
            )
            &&& t.selected_uids.contains(s.shown_list()[j].uid)
            &&& selection::uid_index(s.shown_list(), s.select_anchor->0) >= 0
                ==> t.selected_uids.contains(s.select_anchor->0)
        },
{
    if s.select_anchor is Some {
        let uid = s.shown_list()[j].uid;
        selection::law_range_selection(s.shown_list(), s.select_anchor->0, uid);
        selection::lemma_uid_index(s.shown_list(), uid);
    }
}

// ── Pages ───────────────────────────────────────────────────────────────────

impl AppModel {
    /// Another page of the open mailbox is asked for.
    pub open spec fn page_wanted(self, page: u32) -> AppModel {
        (AppModel { current_page: page, ..self }).headers_wanted(self.selected_mailbox, page)
    }

    /// One page back, unless the first is shown.
    pub open spec fn page_back(self) -> AppModel {
        if self.current_page > 1 {
            self.page_wanted((self.current_page - 1) as u32)
        } else {
            self
        }
    }

    /// One page further, unless the last is shown.
    pub open spec fn page_forward(self) -> AppModel {
        if self.current_page < self.total_pages {
            self.page_wanted((self.current_page + 1) as u32)
        } else {
            self
        }
    }
}

impl EsMailApp {
    /// Asks for another page of the open mailbox.
    fn want_page(&mut self, page: u32)
        requires
            old(self)@.has_ids(1),
        ensures
            final(self)@ == old(self)@.page_wanted(page),
    {
        self.current_page = page;
        let mailbox = self.selected_mailbox.clone();
        self.fetch_headers(mailbox, page);
    }

    /// Asks for the page on screen again.
    pub fn refresh(&mut self)
        requires
            old(self)@.has_ids(1),
        ensures
            final(self)@ == old(self)@.page_wanted(old(self)@.current_page),
    {
        let page: u32 = self.current_page;
        self.want_page(page);
    }

    /// Goes back a page.
    pub fn previous_page(&mut self)
        requires
            old(self)@.has_ids(1),
        ensures
            final(self)@ == old(self)@.page_back(),
    {
        if self.current_page > 1 {
            let page: u32 = self.current_page - 1;
            self.want_page(page);
        }
    }

    /// Goes a page further.
    pub fn next_page(&mut self)
        requires
            old(self)@.has_ids(1),
        ensures
            final(self)@ == old(self)@.page_forward(),
    {
        if self.current_page < self.total_pages {
            let page: u32 = self.current_page + 1;
            self.want_page(page);
        }
    }
}

// ── Searching ───────────────────────────────────────────────────────────────

impl AppModel {
    /// What was typed into the search box is looked up: in the open mailbox,
    /// or everywhere. `query` is the full-text query it amounts to; one that
    /// asks for nothing leaves the search.
    pub open spec fn searched(self, query: Option<Text>) -> AppModel {
        match query {
            None => self.search_left(),
            Some(query) => if self.search_all_accounts {
                self.emit(
                    EffectModel::Db(
                        DbCommandModel::Search { account_id: None, query, mailbox: None },
                    ),
                )
            } else if self.active is Some {
                self.emit(
                    EffectModel::Db(
                        DbCommandModel::Search {
                            account_id: self.active,
                            query,
                            mailbox: Some(self.selected_mailbox),
                        },
                    ),
                )
            } else {
                self
            },
        }
    }

    /// The search box is emptied and the search left.
    pub open spec fn search_cleared(self) -> AppModel {
        (AppModel { search_query: seq![], ..self }).search_left()
    }
}

impl EsMailApp {
    /// Looks up what was typed into the search box.
    pub fn search(&mut self, query: Option<String>)
        requires
            old(self)@.has_ids(1),
        ensures
            final(self)@ == old(self)@.searched(query.deep_view()),
    {
        match query {
            None => self.clear_search(),
            Some(query) => {
                if self.search_all_accounts {
                    self.emit(
                        Effect::Db(DbCommand::Search { account_id: None, query, mailbox: None }),
                    );
                } else if self.active.is_some() {
                    let account_id = compose::copy_option(&self.active);
                    let mailbox = Some(self.selected_mailbox.clone());
                    self.emit(Effect::Db(DbCommand::Search { account_id, query, mailbox }));
                }
            },
        }
    }

    /// Empties the search box and leaves the search.
    pub fn clear_search_box(&mut self)
        requires
            old(self)@.has_ids(1),
        ensures
            final(self)@ == old(self)@.search_cleared(),
    {
        self.search_query = String::new();
        assert(self.search_query@ =~= seq![]);
        self.clear_search();
    }
}

// ── Writing ─────────────────────────────────────────────────────────────────

impl AppModel {
    /// A message, sent from the account that is shown.
    pub open spec fn from_here(self, message: ComposeModel) -> ComposeModel {
        ComposeModel { account_id: self.active, ..message }
    }

    /// A window opens on a new message.
    pub open spec fn new_message(self) -> AppModel {
        self.compose_opened(self.from_here(compose::blank()), Focus::To)
    }

    /// A window opens on a reply to a message, copied to `cc`.
    pub open spec fn replying(self, header: MailHeaderModel, cc: Text) -> AppModel {
        self.compose_opened(
            self.from_here(
                compose::reply_model(header, compose::read_text(self.current_message_html), cc),
            ),
            Focus::Body,
        )
    }

    /// A window opens to forward a message.
    pub open spec fn forwarding(self, header: MailHeaderModel) -> AppModel {
        self.compose_opened(
            self.from_here(
                compose::forward_model(header, compose::read_text(self.current_message_html)),
            ),
            Focus::To,
        )
    }
}

impl EsMailApp {
    /// Opens a window on a new message.
    pub fn compose_new(&mut self)
        requires
            old(self)@.has_ids(1),
        ensures
            final(self)@ == old(self)@.new_message(),
    {
        let account = compose::copy_option(&self.active);
        self.open_compose(ComposeState::default().with_account(account), Focus::To);
    }

    /// Opens a window on a reply to the sender of a message.
    pub fn reply_to(&mut self, header: &MailHeader)
        requires
            old(self)@.has_ids(1),
        ensures
            final(self)@ == old(self)@.replying(header@, seq![]),
    {
        let account = compose::copy_option(&self.active);
        let message = ComposeState::reply(header, self.current_message_html.as_str());
        self.open_compose(message.with_account(account), Focus::Body);
    }

    /// Opens a window on a reply to everyone but `my_address`.
    pub fn reply_to_all(&mut self, header: &MailHeader, my_address: &str)
        requires
            old(self)@.has_ids(1),
        ensures
            final(self)@ == old(self)@.replying(
                header@,
                compose::reply_all_cc(header@, my_address@),
            ),
    {
        let account = compose::copy_option(&self.active);
        let message = ComposeState::reply_all(
            header,
            self.current_message_html.as_str(),
            my_address,
        );
        self.open_compose(message.with_account(account), Focus::Body);
    }

    /// Opens a window to forward a message.
    pub fn forward_message(&mut self, header: &MailHeader)
        requires
            old(self)@.has_ids(1),
        ensures
            final(self)@ == old(self)@.forwarding(header@),
    {
        let account = compose::copy_option(&self.active);
        let message = ComposeState::forward(header, self.current_message_html.as_str());
        self.open_compose(message.with_account(account), Focus::To);
    }
}

// ── Remote images ───────────────────────────────────────────────────────────

/// What the bar above a message says about its remote images.
#[allow(inconsistent_fields)]
#[verifier::ext_equal]
pub enum ImageBarModel {
    Blocked { sender: Option<Text> },
    Trusted { sender: Text },
    Hidden,
}

/// What the bar above a message says about its remote images.
#[allow(inconsistent_fields)]
#[derive(Debug, PartialEq)]
pub enum ImageBar {
    /// They are blocked. They can be loaded once, or always from the sender.
    Blocked { sender: Option<String> },
    /// They are loaded because the sender is trusted, which can be undone.
    Trusted { sender: String },
    /// Nothing: they were loaded for this message alone.
    Hidden,
}

impl View for ImageBar {
    type V = ImageBarModel;

    open spec fn view(&self) -> ImageBarModel {
        match self {
            ImageBar::Blocked { sender } => ImageBarModel::Blocked { sender: sender.deep_view() },
            ImageBar::Trusted { sender } => ImageBarModel::Trusted { sender: sender@ },
            ImageBar::Hidden => ImageBarModel::Hidden,
        }
    }
}

impl AppModel {
    /// What the bar above the open message says. `trusted` tells whether its
    /// sender is on the list of senders whose images are loaded.
    pub open spec fn image_bar(self, trusted: bool) -> ImageBarModel {
        if !self.allow_remote {
            ImageBarModel::Blocked { sender: self.current_sender }
        } else {
            match self.current_sender {
                Some(sender) if trusted => ImageBarModel::Trusted { sender },
                _ => ImageBarModel::Hidden,
            }
        }
    }

    /// Remote images are allowed or blocked, and the page is rendered again.
    pub open spec fn images_allowed(self, allow: bool) -> AppModel {
        (AppModel { allow_remote: allow, ..self }).emit(EffectModel::ReloadPage)
    }

    /// The open message's sender is trusted from now on, or no longer.
    pub open spec fn sender_trusted(self, trusted: bool) -> AppModel {
        match self.current_sender {
            Some(address) => self.emit(EffectModel::TrustSender { address, trusted }).images_allowed(
                trusted,
            ),
            None => self,
        }
    }
}

impl EsMailApp {
    /// What the bar above the open message says.
    pub fn image_bar(&self, trusted: bool) -> (r: ImageBar)
        ensures
            r@ == self@.image_bar(trusted),
    {
        if !self.allow_remote {
            ImageBar::Blocked { sender: compose::copy_option(&self.current_sender) }
        } else {
            match &self.current_sender {
                Some(sender) if trusted => ImageBar::Trusted { sender: sender.clone() },
                _ => ImageBar::Hidden,
            }
        }
    }

    /// Allows or blocks remote images for the open message.
    pub fn allow_images(&mut self, allow: bool)
        ensures
            final(self)@ == old(self)@.images_allowed(allow),
    {
        self.allow_remote = allow;
        self.emit(Effect::ReloadPage);
    }

    /// Trusts the open message's sender from now on, or no longer.
    pub fn trust_sender(&mut self, trusted: bool)
        ensures
            final(self)@ == old(self)@.sender_trusted(trusted),
    {
        if let Some(address) = compose::copy_option(&self.current_sender) {
            self.emit(Effect::TrustSender { address, trusted });
            self.allow_images(trusted);
        }
    }
}

} // verus!
