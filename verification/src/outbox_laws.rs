//! What holds of compose windows, the outbox and quitting: nothing that was
//! written is lost, and nothing is sent twice.

use vstd::prelude::*;
use vstd::string::*;
use crate::app;
use crate::app_outbox;
use crate::compose::ComposeModel;
use crate::compose_window::{ComposeId, Focus, WindowModel};
use crate::events::ImapCommandModel;
use crate::imap::SpecialUse;
use crate::state::{AppModel, EffectModel, OutboxItemModel, QueueCommandModel, WindowCommand};
use crate::text::Text;

verus! {

broadcast use vstd::string::group_string_axioms;

// ── Windows ─────────────────────────────────────────────────────────────────

/// Whether every compose window has an id of its own that was handed out.
pub open spec fn windows_are_distinct(s: AppModel) -> bool {
    &&& forall|i: int|
        0 <= i < s.compose_windows.len() ==> (#[trigger] s.compose_windows[i]).id <= s.next_compose_id
    &&& forall|i: int, j: int|
        0 <= i < j < s.compose_windows.len() ==> (#[trigger] s.compose_windows[i]).id != (
        #[trigger] s.compose_windows[j]).id
}

/// Whether only open windows are remembered to have saved themselves.
pub open spec fn autosaves_are_open(s: AppModel) -> bool {
    forall|id: ComposeId| #[trigger]
        s.compose_last_autosave.dom().contains(id) ==> s.has_window(id)
}

/// A window that opens has an id that no other window has.
pub proof fn law_a_new_window_is_distinct(s: AppModel, state: ComposeModel, focus: Focus)
    requires
        windows_are_distinct(s),
        s.next_compose_id < u64::MAX,
    ensures
        windows_are_distinct(s.compose_opened(state, focus)),
        s.compose_opened(state, focus).has_window((s.next_compose_id + 1) as u64),
        !s.has_window((s.next_compose_id + 1) as u64),
{
    let t = s.compose_opened(state, focus);
    let id = (s.next_compose_id + 1) as u64;
    assert(t.compose_windows.drop_last() =~= s.compose_windows);
    assert forall|i: int| 0 <= i < t.compose_windows.len() implies (#[trigger] t.compose_windows[i]).id
        <= t.next_compose_id by {
        if i < s.compose_windows.len() {
            assert(t.compose_windows[i] == s.compose_windows[i]);
        }
    }
    assert forall|i: int, j: int| 0 <= i < j < t.compose_windows.len() implies (
    #[trigger] t.compose_windows[i]).id != (#[trigger] t.compose_windows[j]).id by {
        assert(t.compose_windows[i] == s.compose_windows[i]);
        if j < s.compose_windows.len() {
            assert(t.compose_windows[j] == s.compose_windows[j]);
        }
    }
    app_outbox::lemma_window_index(s.compose_windows, id);
}

/// A window that closes is gone; the others stay as they are.
pub proof fn law_closing_leaves_the_other_windows(s: AppModel, id: ComposeId, other: ComposeId)
    requires
        windows_are_distinct(s),
    ensures
        windows_are_distinct(s.compose_closed(id)),
        !s.compose_closed(id).has_window(id),
        other != id && s.has_window(other) ==> s.compose_closed(id).has_window(other)
            && s.compose_closed(id).window(other) == s.window(other),
{
    let t = s.compose_closed(id);
    let k = app_outbox::window_index(s.compose_windows, id);
    app_outbox::lemma_window_index(s.compose_windows, id);
    app_outbox::lemma_window_index(t.compose_windows, id);
    app_outbox::lemma_window_index(s.compose_windows, other);
    app_outbox::lemma_window_index(t.compose_windows, other);
    if k >= 0 {
        assert(t.compose_windows == s.compose_windows.remove(k));
        assert forall|i: int| 0 <= i < t.compose_windows.len() implies #[trigger] t.compose_windows[i]
            == s.compose_windows[if i < k { i } else { i + 1 }] by {}
        if t.has_window(id) {
            let i = app_outbox::window_index(t.compose_windows, id);
            assert(t.compose_windows[i].id == id);
            assert(s.compose_windows[k].id == id);
        }
        if other != id && s.has_window(other) {
            let j = app_outbox::window_index(s.compose_windows, other);
            let j2 = if j < k { j } else { j - 1 };
            assert(t.compose_windows[j2] == s.compose_windows[j]);
            let m = app_outbox::window_index(t.compose_windows, other);
            assert(m >= 0);
            assert(t.compose_windows[m].id == other);
        }
    }
}

/// Once a window has closed, nothing is kept about when it saved itself.
pub proof fn law_closed_windows_save_nothing(s: AppModel, id: ComposeId)
    requires
        windows_are_distinct(s),
        autosaves_are_open(s),
    ensures
        autosaves_are_open(s.compose_closed(id)),
{
    let t = s.compose_closed(id);
    assert forall|other: ComposeId| #[trigger]
        t.compose_last_autosave.dom().contains(other) implies t.has_window(other) by {
        law_closing_leaves_the_other_windows(s, id, other);
        if s.has_window(id) {
            assert(s.compose_last_autosave.dom().contains(other));
        }
    }
}

/// Saving the open windows notes nothing about others.
pub proof fn law_only_open_windows_save(s: AppModel, now: u64)
    requires
        autosaves_are_open(s),
    ensures
        autosaves_are_open(s.all_autosaved(s.compose_windows, now)),
{
    assert(s.compose_windows.take(s.compose_windows.len() as int) =~= s.compose_windows);
    lemma_autosaves(s, s.compose_windows, now);
}

proof fn lemma_autosaves(s: AppModel, windows: Seq<WindowModel>, now: u64)
    requires
        autosaves_are_open(s),
        windows.len() <= s.compose_windows.len(),
        windows == s.compose_windows.take(windows.len() as int),
    ensures
        s.all_autosaved(windows, now).compose_windows == s.compose_windows,
        autosaves_are_open(s.all_autosaved(windows, now)),
    decreases windows.len(),
{
    if windows.len() > 0 {
        let rest = windows.drop_last();
        assert(rest =~= s.compose_windows.take(rest.len() as int));
        lemma_autosaves(s, rest, now);
        let t = s.all_autosaved(rest, now);
        let last = windows.last();
        let u = t.autosaved(last, now);
        assert(u.compose_windows == s.compose_windows);
        assert(last == s.compose_windows[windows.len() - 1]);
        app_outbox::lemma_window_index(s.compose_windows, last.id);
        assert forall|id: ComposeId| #[trigger]
            u.compose_last_autosave.dom().contains(id) implies u.has_window(id) by {
            if id != last.id {
                assert(t.compose_last_autosave.dom().contains(id));
            }
        }
    }
}

/// Once what windows ask to be sent has been picked up, nothing is asked for
/// any more, so one click sends once.
pub proof fn law_one_click_sends_once(s: AppModel, ready: Seq<Text>)
    ensures
        app_outbox::requests_of(s.composes_processed(ready).compose_windows) == Seq::<
            app_outbox::RequestModel,
        >::empty(),
{
    let closed = s.composes_closed(app_outbox::finished_ids(s.compose_windows));
    let requests = app_outbox::requests_of(closed.compose_windows);
    let taken = AppModel {
        compose_windows: app_outbox::requests_taken(closed.compose_windows),
        ..closed
    };
    lemma_sends_keep_idle(taken, requests, ready);
    lemma_idle_asks_nothing(s.composes_processed(ready).compose_windows);
}

/// Whether no window asks for anything to be sent.
spec fn idle(windows: Seq<WindowModel>) -> bool {
    forall|i: int| 0 <= i < windows.len() ==> !(#[trigger] windows[i]).send_requested
}

proof fn lemma_idle_asks_nothing(windows: Seq<WindowModel>)
    requires
        idle(windows),
    ensures
        app_outbox::requests_of(windows) == Seq::<app_outbox::RequestModel>::empty(),
    decreases windows.len(),
{
    if windows.len() > 0 {
        assert(!windows[windows.len() - 1].send_requested);
        assert forall|i: int| 0 <= i < windows.drop_last().len() implies !(
        #[trigger] windows.drop_last()[i]).send_requested by {
            assert(!windows[i].send_requested);
        }
        lemma_idle_asks_nothing(windows.drop_last());
    }
}

proof fn lemma_sends_keep_idle(
    s: AppModel,
    requests: Seq<app_outbox::RequestModel>,
    ready: Seq<Text>,
)
    requires
        idle(s.compose_windows),
    ensures
        idle(s.sends_wanted(requests, ready).compose_windows),
    decreases requests.len(),
{
    if requests.len() > 0 {
        lemma_sends_keep_idle(s, requests.drop_last(), ready);
        let t = s.sends_wanted(requests.drop_last(), ready);
        app_outbox::lemma_window_index(t.compose_windows, requests.last().id);
    }
}

// ── Sending ─────────────────────────────────────────────────────────────────

/// A row with a send outstanding, or one that an open window owns, is not sent
/// a second time.
pub proof fn law_no_second_attempt(s: AppModel, item: OutboxItemModel, ready: Seq<Text>)
    requires
        s.outbox_in_flight.contains(item.id) || s.row_is_open(item.id),
    ensures
        s.retried(item, ready) == s,
{
}

/// A row that is sent again has a send outstanding, so the next look at the
/// outbox leaves it alone.
pub proof fn law_an_attempt_is_outstanding(
    s: AppModel,
    item: OutboxItemModel,
    ready: Seq<Text>,
)
    requires
        s.next_compose_id < u64::MAX,
        app_outbox::names(ready, item.account_id),
    ensures
        ({
            let t = s.retried(item, ready);
            t.retried(item, ready) == t
        }),
{
    let t = s.retried(item, ready);
    if !(s.row_is_open(item.id) || s.outbox_in_flight.contains(item.id)) {
        let id = (s.next_compose_id + 1) as u64;
        assert(t.outbox_owner[id] == item.id);
        assert(t.outbox_in_flight.contains(item.id));
    }
}

/// After a message was sent, its outbox row is done: it is no longer owned or
/// outstanding, and the store is told.
pub proof fn law_a_sent_message_is_done(s: AppModel, id: ComposeId, raw: Seq<u8>)
    requires
        s.outbox_owner.dom().contains(id),
    ensures
        ({
            let row = s.outbox_owner[id];
            let t = s.on_sent(id, raw);
            &&& !t.outbox_owner.dom().contains(id)
            &&& !t.outbox_in_flight.contains(row)
            &&& t.effects.contains(
                EffectModel::Queue(QueueCommandModel::MarkOutboxSent { id: row }),
            )
        }),
{
    let row = s.outbox_owner[id];
    let done = EffectModel::Queue(QueueCommandModel::MarkOutboxSent { id: row });
    let a = s.draft_done(id).compose_closed(id);
    let b = a.row_sent(id, row);
    assert(b.effects.last() == done);
    let c = b.with_status("Message sent"@);
    let d = c.sent_copy_saved(id, raw);
    assert(d.effects[b.effects.len() - 1] == done);
    assert(d.outbox_owner == b.outbox_owner);
    assert(d.outbox_in_flight == b.outbox_in_flight);
}

/// A copy of a sent message goes to the Sent mailbox of the account it was sent
/// from, even if its window has closed meanwhile.
pub proof fn law_the_copy_goes_to_the_sender(s: AppModel, id: ComposeId, raw: Seq<u8>)
    requires
        s.sending_from.dom().contains(id),
        s.has_account(s.sending_from[id]),
    ensures
        ({
            let account = s.sending_from[id];
            s.on_sent(id, raw).effects.last() == (EffectModel::Imap {
                account,
                cmd: ImapCommandModel::Append {
                    mailbox: s.special_mailbox_for(account, SpecialUse::Sent, app::SENT_MAILBOX@),
                    raw,
                },
            })
        }),
{
    let account = s.sending_from[id];
    let a = s.draft_done(id).compose_closed(id);
    assert(a.accounts == s.accounts);
    assert(a.sending_from == s.sending_from);
    let b = if s.outbox_owner.dom().contains(id) {
        a.row_sent(id, s.outbox_owner[id])
    } else {
        a
    };
    assert(b.accounts == s.accounts);
    assert(b.sending_from == s.sending_from);
    let c = b.with_status("Message sent"@);
    assert(c.special_mailbox_for(account, SpecialUse::Sent, app::SENT_MAILBOX@)
        == s.special_mailbox_for(account, SpecialUse::Sent, app::SENT_MAILBOX@));
}

/// A send that failed loses nothing: its window stays open with what was
/// typed, says what went wrong, and the message is kept to be sent again.
pub proof fn law_a_failed_send_loses_nothing(s: AppModel, id: ComposeId, error: Text)
    requires
        s.has_window(id),
    ensures
        ({
            let t = s.on_send_failed(id, error);
            &&& t.has_window(id)
            &&& t.window(id) == s.window(id).with_error("Send failed: "@ + error)
            &&& s.outbox_owner.dom().contains(id) ==> t.effects.contains(
                EffectModel::Queue(
                    QueueCommandModel::MarkOutboxFailed { id: s.outbox_owner[id], error },
                ),
            )
            &&& !s.outbox_owner.dom().contains(id) && s.window(id).state.account_id is Some
                ==> t.effects.contains(
                EffectModel::Queue(
                    QueueCommandModel::EnqueueOutbox {
                        id: None,
                        compose_id: id,
                        account_id: s.window(id).state.account_id->0,
                        compose: s.window(id).state,
                    },
                ),
            )
        }),
{
    let k = app_outbox::window_index(s.compose_windows, id);
    app_outbox::lemma_window_index(s.compose_windows, id);
    let a = AppModel { sending_from: s.sending_from.remove(id), ..s };
    let b = a.failure_kept(id, error);
    assert(b.compose_windows == s.compose_windows);
    let new = s.window(id).with_error("Send failed: "@ + error);
    let t = b.failure_shown(id, "Send failed: "@ + error);
    assert(t.compose_windows == s.compose_windows.update(k, new));
    app_outbox::lemma_window_index_same(s.compose_windows, t.compose_windows, id);
    if s.outbox_owner.dom().contains(id) || s.window(id).state.account_id is Some {
        assert(t.effects[b.effects.len() - 1] == b.effects.last());
    }
}

// ── Quitting ────────────────────────────────────────────────────────────────

/// Closing the window never loses what was not sent: without a tray icon the
/// close is cancelled and the user is asked.
pub proof fn law_closing_asks_about_unsent_messages(s: AppModel)
    requires
        s.has_unsent(),
        !s.has_tray,
        !s.exit_requested,
    ensures
        ({
            let t = s.on_close_without_tray();
            &&& t.confirm_quit
            &&& !t.exit_requested
            &&& !t.is_closing()
            &&& t.effects[s.effects.len() as int] == EffectModel::Window(WindowCommand::CancelClose)
        }),
{
    let a = s.emit(EffectModel::Window(WindowCommand::CancelClose));
    assert(a.compose_windows == s.compose_windows);
    assert(a.has_unsent());
    let t = s.on_close_without_tray();
    assert(t.compose_windows == s.compose_windows);
    assert(t.has_unsent());
}

/// With a tray icon, closing the window hides it, unless the program is
/// exiting.
pub proof fn law_closing_hides_the_window(s: AppModel)
    requires
        s.has_tray,
        !s.exit_requested,
    ensures
        s.on_close_with_tray().effects == s.effects.push(
            EffectModel::Window(WindowCommand::CancelClose),
        ).push(EffectModel::Window(WindowCommand::Hide)),
        !s.on_close_with_tray().is_closing(),
{
}

/// Quitting with something unsent asks first; without, it happens at once.
pub proof fn law_quitting_asks_first(s: AppModel)
    ensures
        s.has_unsent() ==> s.quit_wanted().confirm_quit && s.quit_wanted().exit_requested
            == s.exit_requested,
        !s.has_unsent() ==> s.quit_wanted().exit_requested && s.quit_wanted().effects.last()
            == EffectModel::Window(WindowCommand::Close),
{
}

/// The window's place is saved once, however many frames the closing takes.
pub proof fn law_the_place_is_saved_once(s: AppModel)
    ensures
        s.on_closing().on_closing() == s.on_closing(),
{
    let t = s.on_closing();
    assert(t.compose_windows == s.compose_windows);
    assert(t.has_unsent() == s.has_unsent());
}

} // verus!
