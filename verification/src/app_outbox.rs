//! Compose windows, the outbox and drafts, as the main program runs them:
//! sending, retrying, saving what is being written, and quitting with
//! something unsent.

use vstd::prelude::*;
use vstd::string::*;
use crate::compose::{ComposeModel, ComposeState};
use crate::compose_window::{ComposeId, ComposeWindow, Focus, WindowModel};
use crate::mailboxes;
use crate::state;
use crate::state::{AppModel, Effect, EffectModel, EsMailApp};
use crate::text;
use crate::text::Text;

verus! {

broadcast use {vstd::string::group_string_axioms, vstd::std_specs::hash::group_hash_axioms};

/// How long the outbox is left alone between two looks at what is due, in
/// milliseconds.
pub const OUTBOX_POLL_INTERVAL: u64 = 20_000;

/// How long a compose window goes between saving itself, in milliseconds.
pub const DRAFT_AUTOSAVE_INTERVAL: u64 = 5_000;

// ── Windows ─────────────────────────────────────────────────────────────────

/// The position of the first window with an id, or -1.
pub open spec fn window_index(windows: Seq<WindowModel>, id: ComposeId) -> int
    decreases windows.len(),
{
    if windows.len() == 0 {
        -1
    } else {
        let before = window_index(windows.drop_last(), id);
        if before >= 0 {
            before
        } else if windows.last().id == id {
            windows.len() - 1
        } else {
            -1
        }
    }
}

/// A window's position is inside the list, and the window there has the id.
pub proof fn lemma_window_index(windows: Seq<WindowModel>, id: ComposeId)
    ensures
        -1 <= window_index(windows, id) < windows.len(),
        window_index(windows, id) >= 0 ==> windows[window_index(windows, id)].id == id,
        window_index(windows, id) < 0 ==> forall|i: int|
            0 <= i < windows.len() ==> (#[trigger] windows[i]).id != id,
    decreases windows.len(),
{
    if windows.len() > 0 {
        lemma_window_index(windows.drop_last(), id);
        assert forall|i: int| window_index(windows, id) < 0 && 0 <= i < windows.len() implies (
        #[trigger] windows[i]).id != id by {
            if i < windows.len() - 1 {
                assert(windows.drop_last()[i] == windows[i]);
            }
        }
    }
}

/// Once found among the first `n`, a window's position is the same among all.
proof fn lemma_window_index_stays(windows: Seq<WindowModel>, id: ComposeId, n: int)
    requires
        0 <= n <= windows.len(),
        window_index(windows.take(n), id) >= 0,
    ensures
        window_index(windows, id) == window_index(windows.take(n), id),
    decreases windows.len() - n,
{
    if n == windows.len() {
        assert(windows.take(n) =~= windows);
    } else {
        assert(windows.take(n + 1).drop_last() =~= windows.take(n));
        lemma_window_index_stays(windows, id, n + 1);
    }
}

/// Windows that keep their ids keep their positions.
pub proof fn lemma_window_index_same(a: Seq<WindowModel>, b: Seq<WindowModel>, id: ComposeId)
    requires
        a.len() == b.len(),
        forall|i: int| 0 <= i < a.len() ==> (#[trigger] a[i]).id == b[i].id,
    ensures
        window_index(a, id) == window_index(b, id),
    decreases a.len(),
{
    if a.len() > 0 {
        assert forall|i: int| 0 <= i < a.len() - 1 implies (#[trigger] a.drop_last()[i]).id
            == b.drop_last()[i].id by {
            assert(a[i].id == b[i].id);
        }
        assert(a[a.len() - 1].id == b[b.len() - 1].id);
        lemma_window_index_same(a.drop_last(), b.drop_last(), id);
    }
}

/// The window with an id.
pub fn find_window(windows: &Vec<ComposeWindow>, id: ComposeId) -> (r: Option<usize>)
    ensures
        match r {
            Some(i) => i < windows@.len() && i == window_index(windows.deep_view(), id)
                && windows@[i as int]@.id == id,
            None => window_index(windows.deep_view(), id) < 0,
        },
{
    let ghost all = windows.deep_view();
    let mut i: usize = 0;
    while i < windows.len()
        invariant
            i <= windows@.len(),
            all == windows.deep_view(),
            window_index(all.take(i as int), id) < 0,
        decreases windows@.len() - i,
    {
        assert(all.take(i + 1).drop_last() =~= all.take(i as int));
        assert(all.take(i + 1).last() == windows@[i as int]@);
        if windows[i].id == id {
            proof {
                lemma_window_index_stays(all, id, i + 1);
            }
            return Some(i);
        }
        i += 1;
    }
    assert(all.take(all.len() as int) =~= all);
    None
}

impl AppModel {
    /// Whether a compose window is open.
    pub open spec fn has_window(self, id: ComposeId) -> bool {
        window_index(self.compose_windows, id) >= 0
    }

    /// An open compose window.
    pub open spec fn window(self, id: ComposeId) -> WindowModel {
        self.compose_windows[window_index(self.compose_windows, id)]
    }

    /// Another state of the window at position `i`.
    pub open spec fn with_window_at(self, i: int, window: WindowModel) -> AppModel {
        AppModel { compose_windows: self.compose_windows.update(i, window), ..self }
    }

    /// Another state of an open window.
    pub open spec fn with_window(self, id: ComposeId, window: WindowModel) -> AppModel {
        self.with_window_at(window_index(self.compose_windows, id), window)
    }

    /// A compose window opens on a message.
    pub open spec fn compose_opened(self, state: ComposeModel, focus: Focus) -> AppModel {
        let id = (self.next_compose_id + 1) as u64;
        AppModel {
            next_compose_id: id,
            compose_windows: self.compose_windows.push(WindowModel::opened(id, state, focus)),
            ..self
        }
    }

    /// What is kept about a window goes once it has closed. A send that is
    /// still out keeps its outbox row, which its outcome settles.
    pub open spec fn window_forgotten(self, id: ComposeId) -> AppModel {
        AppModel {
            compose_last_autosave: self.compose_last_autosave.remove(id),
            outbox_owner: if self.sending_from.dom().contains(id) {
                self.outbox_owner
            } else {
                self.outbox_owner.remove(id)
            },
            ..self
        }
    }

    /// A compose window closes: its native window is hidden on the spot and
    /// goes away with the next frame of the main window.
    pub open spec fn compose_closed(self, id: ComposeId) -> AppModel {
        if self.has_window(id) {
            (AppModel {
                compose_windows: self.compose_windows.remove(
                    window_index(self.compose_windows, id),
                ),
                ..self
            }).window_forgotten(id).emit(EffectModel::HideCompose(id)).emit(EffectModel::Repaint)
        } else {
            self
        }
    }

    /// Several compose windows close, in order.
    pub open spec fn composes_closed(self, ids: Seq<ComposeId>) -> AppModel
        decreases ids.len(),
    {
        if ids.len() == 0 {
            self
        } else {
            self.composes_closed(ids.drop_last()).compose_closed(ids.last())
        }
    }
}

impl EsMailApp {
    /// Opens a compose window on a message.
    pub fn open_compose(&mut self, state: ComposeState, focus: Focus)
        requires
            old(self)@.has_ids(1),
        ensures
            final(self)@ == old(self)@.compose_opened(state@, focus),
    {
        let ghost held = self.compose_windows.deep_view();
        self.next_compose_id = self.next_compose_id + 1;
        let window = ComposeWindow::new(self.next_compose_id, state, focus);
        let ghost wm = window@;
        self.compose_windows.push(window);
        assert(self.compose_windows.deep_view() =~= held.push(wm));
    }

    /// Takes the window at position `i` out of the list.
    fn remove_window(&mut self, i: usize)
        requires
            i < old(self).compose_windows@.len(),
        ensures
            final(self)@ == (AppModel {
                compose_windows: old(self)@.compose_windows.remove(i as int),
                ..old(self)@
            }),
    {
        let ghost held = self.compose_windows.deep_view();
        let _ = self.compose_windows.remove(i);
        assert(self.compose_windows.deep_view() =~= held.remove(i as int));
    }

    /// Forgets what is kept about a window that has closed.
    fn forget_window(&mut self, id: ComposeId)
        ensures
            final(self)@ == old(self)@.window_forgotten(id),
    {
        let ghost autosaves = self.compose_last_autosave@;
        let ghost owners = self.outbox_owner@;
        let _ = self.compose_last_autosave.remove(&id);
        assert(self.compose_last_autosave@ =~= autosaves.remove(id));
        if !self.sending_from.contains_key(&id) {
            let _ = self.outbox_owner.remove(&id);
            assert(self.outbox_owner@ =~= owners.remove(id));
        }
        assert(self@.compose_last_autosave == autosaves.remove(id));
    }

    /// Closes a compose window.
    pub fn close_compose(&mut self, id: ComposeId)
        ensures
            final(self)@ == old(self)@.compose_closed(id),
    {
        if let Some(i) = find_window(&self.compose_windows, id) {
            self.remove_window(i);
            self.forget_window(id);
            self.emit(Effect::HideCompose(id));
            self.emit(Effect::Repaint);
        }
    }
}

// ── Choosing a sender ───────────────────────────────────────────────────────

impl AppModel {
    /// What the From selector of a compose window offers: every account, as
    /// its id and its name.
    pub open spec fn senders(self) -> Seq<(Text, Text)> {
        Seq::new(
            self.accounts.len(),
            |i: int| (self.accounts[i].id, self.accounts[i].label),
        )
    }

    /// Every compose window offers the accounts there are.
    pub open spec fn composes_shown(self) -> AppModel {
        AppModel {
            compose_windows: Seq::new(
                self.compose_windows.len(),
                |i: int| WindowModel { accounts: self.senders(), ..self.compose_windows[i] },
            ),
            ..self
        }
    }
}

impl EsMailApp {
    /// What the From selector of a compose window offers.
    pub fn senders(&self) -> (r: Vec<(String, String)>)
        ensures
            r.deep_view() == self@.senders(),
    {
        let mut r: Vec<(String, String)> = Vec::new();
        let mut i: usize = 0;
        while i < self.accounts.len()
            invariant
                i <= self.accounts@.len(),
                r@.len() == i,
                forall|j: int|
                    0 <= j < i ==> (#[trigger] r@[j]).deep_view() == (
                        self@.accounts[j].id,
                        self@.accounts[j].label,
                    ),
            decreases self.accounts@.len() - i,
        {
            assert(self@.accounts[i as int] == self.accounts@[i as int]@);
            r.push((self.accounts[i].id.clone(), self.accounts[i].label.clone()));
            i += 1;
        }
        assert(r.deep_view() =~= self@.senders());
        r
    }

    /// Tells every compose window which accounts there are.
    pub fn show_compose_windows(&mut self)
        ensures
            final(self)@ == old(self)@.composes_shown(),
    {
        let ghost held = self.compose_windows.deep_view();
        let ghost offered = self@.senders();
        let mut i: usize = 0;
        while i < self.compose_windows.len()
            invariant
                i <= self.compose_windows@.len(),
                held == old(self)@.compose_windows,
                offered == old(self)@.senders(),
                self@ == (AppModel { compose_windows: self@.compose_windows, ..old(self)@ }),
                self@.compose_windows.len() == held.len(),
                forall|j: int|
                    0 <= j < i ==> #[trigger] self@.compose_windows[j] == (WindowModel {
                        accounts: offered,
                        ..held[j]
                    }),
                forall|j: int|
                    i <= j < held.len() ==> #[trigger] self@.compose_windows[j] == held[j],
            decreases self.compose_windows@.len() - i,
        {
            let accounts = self.senders();
            let ghost before = self@;
            assert(before.senders() =~= offered);
            assert(before.compose_windows[i as int] == self.compose_windows@[i as int]@);
            self.compose_windows[i].accounts = accounts;
            assert(self@.compose_windows =~= before.compose_windows.update(
                i as int,
                WindowModel { accounts: offered, ..held[i as int] },
            ));
            i += 1;
        }
        assert(self@.compose_windows =~= old(self)@.composes_shown().compose_windows);
    }
}

// ── Sending ─────────────────────────────────────────────────────────────────

/// Whether a list names an account.
pub open spec fn names(ready: Seq<Text>, account: Text) -> bool {
    ready.contains(account)
}

/// The windows whose user is done with them.
pub open spec fn finished_ids(windows: Seq<WindowModel>) -> Seq<ComposeId>
    decreases windows.len(),
{
    if windows.len() == 0 {
        seq![]
    } else {
        let before = finished_ids(windows.drop_last());
        if windows.last().finished {
            before.push(windows.last().id)
        } else {
            before
        }
    }
}

/// A message that a window asks to be sent.
#[verifier::ext_equal]
pub struct RequestModel {
    pub id: ComposeId,
    pub from: Option<Text>,
    pub compose: ComposeModel,
}

/// A message that a window asks to be sent.
pub struct Request {
    pub id: ComposeId,
    pub from: Option<String>,
    pub compose: ComposeState,
}

impl View for Request {
    type V = RequestModel;

    open spec fn view(&self) -> RequestModel {
        RequestModel { id: self.id, from: self.from.deep_view(), compose: self.compose@ }
    }
}

impl DeepView for Request {
    type V = RequestModel;

    open spec fn deep_view(&self) -> RequestModel {
        self.view()
    }
}

/// The messages that windows ask to be sent, in their order.
pub open spec fn requests_of(windows: Seq<WindowModel>) -> Seq<RequestModel>
    decreases windows.len(),
{
    if windows.len() == 0 {
        seq![]
    } else {
        let before = requests_of(windows.drop_last());
        let last = windows.last();
        if last.send_requested {
            before.push(
                RequestModel { id: last.id, from: last.state.account_id, compose: last.state },
            )
        } else {
            before
        }
    }
}

/// Windows whose request to send has been picked up.
pub open spec fn requests_taken(windows: Seq<WindowModel>) -> Seq<WindowModel> {
    Seq::new(windows.len(), |i: int| WindowModel { send_requested: false, ..windows[i] })
}

impl AppModel {
    /// A send goes out, and is remembered with the account it is from. If the
    /// message is in the outbox, its row has a send outstanding.
    pub open spec fn sending(self, id: ComposeId, account: Text, compose: ComposeModel) -> AppModel {
        (AppModel {
            sending_from: self.sending_from.insert(id, account),
            outbox_in_flight: if self.outbox_owner.dom().contains(id) {
                self.outbox_in_flight.insert(self.outbox_owner[id])
            } else {
                self.outbox_in_flight
            },
            ..self
        }).emit(EffectModel::Smtp { id, account, compose })
    }

    /// A window asks for its message to be sent: it goes out, or the window
    /// says what is missing. `ready` are the accounts that can send.
    pub open spec fn send_wanted(self, request: RequestModel, ready: Seq<Text>) -> AppModel {
        if !self.has_window(request.id) {
            self
        } else {
            let window = self.window(request.id);
            let s = match request.from {
                None => self.with_window(
                    request.id,
                    window.with_error("Choose an account to send from."@),
                ),
                Some(from) => if names(ready, from) {
                    self.sending(request.id, from, request.compose).with_window(
                        request.id,
                        window.with_sending(true),
                    )
                } else {
                    self.with_window(
                        request.id,
                        window.with_error(
                            "No SMTP password on file yet — connect once via IMAP first."@,
                        ),
                    )
                },
            };
            s.emit(EffectModel::RepaintCompose(request.id))
        }
    }

    /// Several windows ask for their messages to be sent.
    pub open spec fn sends_wanted(self, requests: Seq<RequestModel>, ready: Seq<Text>) -> AppModel
        decreases requests.len(),
    {
        if requests.len() == 0 {
            self
        } else {
            self.sends_wanted(requests.drop_last(), ready).send_wanted(requests.last(), ready)
        }
    }

    /// What the compose windows ask for is done: finished windows close, and
    /// the messages whose Send was clicked go out.
    pub open spec fn composes_processed(self, ready: Seq<Text>) -> AppModel {
        let s = self.composes_closed(finished_ids(self.compose_windows));
        let requests = requests_of(s.compose_windows);
        (AppModel { compose_windows: requests_taken(s.compose_windows), ..s }).sends_wanted(
            requests,
            ready,
        )
    }

    /// A send of a window could not be handed over: it is as if it had not
    /// gone out, and the window says so.
    pub open spec fn send_refused(self, id: ComposeId) -> AppModel {
        if self.has_window(id) {
            (AppModel {
                sending_from: self.sending_from.remove(id),
                outbox_in_flight: if self.outbox_owner.dom().contains(id) {
                    self.outbox_in_flight.remove(self.outbox_owner[id])
                } else {
                    self.outbox_in_flight
                },
                ..self
            }).with_window(
                id,
                self.window(id).with_error("Could not queue the message for sending."@),
            )
        } else {
            self
        }
    }
}

/// The windows whose user is done with them.
fn find_finished(windows: &Vec<ComposeWindow>) -> (r: Vec<ComposeId>)
    ensures
        r@ == finished_ids(windows.deep_view()),
{
    let ghost all = windows.deep_view();
    let mut r: Vec<ComposeId> = Vec::new();
    let mut i: usize = 0;
    assert(r@ =~= finished_ids(all.take(0)));
    while i < windows.len()
        invariant
            i <= windows@.len(),
            all == windows.deep_view(),
            r@ == finished_ids(all.take(i as int)),
        decreases windows@.len() - i,
    {
        assert(all.take(i + 1).drop_last() =~= all.take(i as int));
        assert(all.take(i + 1).last() == windows@[i as int]@);
        if windows[i].is_finished() {
            r.push(windows[i].id());
        }
        i += 1;
    }
    assert(all.take(all.len() as int) =~= all);
    r
}

/// Picks up what windows ask to be sent.
fn take_requests(windows: &mut Vec<ComposeWindow>) -> (r: Vec<Request>)
    ensures
        r.deep_view() == requests_of(old(windows).deep_view()),
        final(windows).deep_view() == requests_taken(old(windows).deep_view()),
{
    let ghost all = windows.deep_view();
    let mut r: Vec<Request> = Vec::new();
    let n: usize = windows.len();
    let mut i: usize = 0;
    assert(r.deep_view() =~= requests_of(all.take(0)));
    while i < n
        invariant
            i <= n,
            windows@.len() == n,
            all.len() == n,
            r.deep_view() == requests_of(all.take(i as int)),
            forall|j: int|
                0 <= j < i ==> #[trigger] windows.deep_view()[j] == (WindowModel {
                    send_requested: false,
                    ..all[j]
                }),
            forall|j: int| i <= j < n ==> #[trigger] windows.deep_view()[j] == all[j],
        decreases n - i,
    {
        let ghost held = r.deep_view();
        let ghost now = windows.deep_view();
        assert(now[i as int] == all[i as int]);
        assert(now[i as int] == windows@[i as int]@);
        assert(all.take(i + 1).drop_last() =~= all.take(i as int));
        assert(all.take(i + 1).last() == all[i as int]);
        let window = &mut windows[i];
        let taken = window.take_send_request();
        let id: ComposeId = window.id();
        let from = window.account_id();
        proof {
            let new = WindowModel { send_requested: false, ..all[i as int] };
            assert(windows.deep_view() =~= now.update(i as int, new));
        }
        if let Some(compose) = taken {
            let request = Request { id, from, compose };
            let ghost rm = request@;
            r.push(request);
            assert(r.deep_view() =~= held.push(rm));
        }
        i += 1;
    }
    assert(all.take(all.len() as int) =~= all);
    assert(windows.deep_view() =~= requests_taken(all));
    r
}

impl EsMailApp {
    /// Remembers the account a send is from.
    fn remember_sender(&mut self, id: ComposeId, account: &str)
        ensures
            final(self)@ == (AppModel {
                sending_from: old(self)@.sending_from.insert(id, account@),
                ..old(self)@
            }),
    {
        let ghost held = self.sending_from@;
        self.sending_from.insert(id, account.to_owned());
        assert(state::texts_of(self.sending_from@) =~= state::texts_of(held).insert(id, account@));
    }

    /// Forgets the account a send is from; tells it.
    pub(crate) fn forget_sender(&mut self, id: ComposeId) -> (r: Option<String>)
        ensures
            final(self)@ == (AppModel {
                sending_from: old(self)@.sending_from.remove(id),
                ..old(self)@
            }),
            match r {
                Some(account) => old(self)@.sending_from.dom().contains(id) && account@
                    == old(self)@.sending_from[id],
                None => !old(self)@.sending_from.dom().contains(id),
            },
    {
        let ghost held = self.sending_from@;
        let r = self.sending_from.remove(&id);
        assert(state::texts_of(self.sending_from@) =~= state::texts_of(held).remove(id));
        r
    }

    /// The outbox row of a message.
    pub(crate) fn row_of(&self, id: ComposeId) -> (r: Option<i64>)
        ensures
            match r {
                Some(row) => self@.outbox_owner.dom().contains(id) && row == self@.outbox_owner[id],
                None => !self@.outbox_owner.dom().contains(id),
            },
    {
        match self.outbox_owner.get(&id) {
            Some(row) => Some(*row),
            None => None,
        }
    }

    /// Marks an outbox row as having a send outstanding.
    fn begin_attempt(&mut self, row: i64)
        ensures
            final(self)@ == (AppModel {
                outbox_in_flight: old(self)@.outbox_in_flight.insert(row),
                ..old(self)@
            }),
    {
        let ghost held = self.outbox_in_flight@;
        self.outbox_in_flight.insert(row);
        assert(self.outbox_in_flight@ =~= held.insert(row));
    }

    /// Marks an outbox row as having no send outstanding.
    pub(crate) fn end_attempt(&mut self, row: i64)
        ensures
            final(self)@ == (AppModel {
                outbox_in_flight: old(self)@.outbox_in_flight.remove(row),
                ..old(self)@
            }),
    {
        let ghost held = self.outbox_in_flight@;
        self.outbox_in_flight.remove(&row);
        assert(self.outbox_in_flight@ =~= held.remove(row));
    }

    /// Hands a message over to be sent.
    pub(crate) fn send(&mut self, id: ComposeId, account: String, compose: ComposeState)
        ensures
            final(self)@ == old(self)@.sending(id, account@, compose@),
    {
        self.remember_sender(id, account.as_str());
        if let Some(row) = self.row_of(id) {
            self.begin_attempt(row);
        }
        self.emit(Effect::Smtp { id, account, compose });
    }

    /// Shows an error in the window at position `i`.
    pub(crate) fn window_error(&mut self, i: usize, error: String)
        requires
            i < old(self).compose_windows@.len(),
        ensures
            final(self)@ == old(self)@.with_window_at(
                i as int,
                old(self)@.compose_windows[i as int].with_error(error@),
            ),
    {
        let ghost held = self.compose_windows.deep_view();
        let ghost new = held[i as int].with_error(error@);
        let window = &mut self.compose_windows[i];
        window.set_error(error);
        assert(self.compose_windows.deep_view() =~= held.update(i as int, new));
    }

    /// Locks the window at position `i` for a send.
    fn window_sending(&mut self, i: usize)
        requires
            i < old(self).compose_windows@.len(),
        ensures
            final(self)@ == old(self)@.with_window_at(
                i as int,
                old(self)@.compose_windows[i as int].with_sending(true),
            ),
    {
        let ghost held = self.compose_windows.deep_view();
        let ghost new = held[i as int].with_sending(true);
        let window = &mut self.compose_windows[i];
        window.set_sending(true);
        assert(self.compose_windows.deep_view() =~= held.update(i as int, new));
    }

    /// Sends one window's message, or says in the window what is missing.
    fn want_send(&mut self, request: Request, ready: &Vec<String>)
        ensures
            final(self)@ == old(self)@.send_wanted(request@, ready.deep_view()),
    {
        if let Some(i) = find_window(&self.compose_windows, request.id) {
            let id: ComposeId = request.id;
            match request.from {
                None => self.window_error(i, "Choose an account to send from.".to_owned()),
                Some(from) => {
                    if mailboxes::lists(ready, &from) {
                        self.send(id, from, request.compose);
                        self.window_sending(i);
                    } else {
                        self.window_error(
                            i,
                            "No SMTP password on file yet — connect once via IMAP first.".to_owned(),
                        );
                    }
                },
            }
            self.emit(Effect::RepaintCompose(id));
        }
    }

    /// Closes several compose windows.
    fn close_composes(&mut self, ids: &Vec<ComposeId>)
        ensures
            final(self)@ == old(self)@.composes_closed(ids@),
    {
        let ghost start = self@;
        let mut i: usize = 0;
        assert(ids@.take(0) =~= seq![]);
        while i < ids.len()
            invariant
                i <= ids@.len(),
                self@ == start.composes_closed(ids@.take(i as int)),
            decreases ids@.len() - i,
        {
            assert(ids@.take(i + 1).drop_last() =~= ids@.take(i as int));
            self.close_compose(ids[i]);
            i += 1;
        }
        assert(ids@.take(ids@.len() as int) =~= ids@);
    }

    /// Picks up what the windows ask to be sent.
    fn pick_up_requests(&mut self) -> (r: Vec<Request>)
        ensures
            r.deep_view() == requests_of(old(self)@.compose_windows),
            final(self)@ == (AppModel {
                compose_windows: requests_taken(old(self)@.compose_windows),
                ..old(self)@
            }),
    {
        take_requests(&mut self.compose_windows)
    }

    /// Sends several windows' messages.
    fn want_sends(&mut self, requests: Vec<Request>, ready: &Vec<String>)
        ensures
            final(self)@ == old(self)@.sends_wanted(requests.deep_view(), ready.deep_view()),
    {
        let ghost start = self@;
        let ghost all = requests@;
        let ghost models = requests.deep_view();
        let mut left = requests;
        let ghost mut n: int = 0;
        assert(left@ =~= all.skip(0));
        assert(models.take(0) =~= seq![]);
        while left.len() > 0
            invariant
                0 <= n <= all.len(),
                models.len() == all.len(),
                forall|i: int| 0 <= i < all.len() ==> #[trigger] models[i] == all[i]@,
                left@ == all.skip(n),
                self@ == start.sends_wanted(models.take(n), ready.deep_view()),
            decreases left@.len(),
        {
            let request = left.remove(0);
            assert(request == all[n]);
            assert(left@ =~= all.skip(n + 1));
            assert(models.take(n + 1).drop_last() =~= models.take(n));
            assert(models.take(n + 1).last() == request@);
            self.want_send(request, ready);
            proof {
                n = n + 1;
            }
        }
        assert(models.take(n) =~= models);
    }

    /// Does what the compose windows ask for. `ready` are the accounts that
    /// can send.
    pub fn process_compose_windows(&mut self, ready: &Vec<String>)
        ensures
            final(self)@ == old(self)@.composes_processed(ready.deep_view()),
    {
        let finished = find_finished(&self.compose_windows);
        self.close_composes(&finished);
        let requests = self.pick_up_requests();
        self.want_sends(requests, ready);
    }

    /// Takes back a send that could not be handed over.
    pub fn send_was_refused(&mut self, id: ComposeId)
        ensures
            final(self)@ == old(self)@.send_refused(id),
    {
        if let Some(i) = find_window(&self.compose_windows, id) {
            let _ = self.forget_sender(id);
            if let Some(row) = self.row_of(id) {
                self.end_attempt(row);
            }
            self.window_error(i, "Could not queue the message for sending.".to_owned());
        }
    }
}

} // verus!
