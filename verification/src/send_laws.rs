//! What becomes of messages that are written: what is handed over to be sent, what
//! is kept to be sent again, and what is saved as a draft.

use vstd::prelude::*;
use vstd::string::*;
use crate::app_outbox;
use crate::app_outbox::RequestModel;
use crate::app_windows;
use crate::command_laws;
use crate::compose::ComposeModel;
use crate::compose_window::{ComposeId, Focus, WindowModel};
use crate::events::ImapCommandModel;
use crate::imap::SpecialUse;
use crate::outbox_laws;
use crate::state::{
    AppModel, DraftSummaryModel, EffectModel, OutboxItemModel, QueueCommandModel, QueueEventModel,
    SmtpEventModel,
};
use crate::text::Text;

verus! {

broadcast use vstd::string::group_string_axioms;

// ── Send ────────────────────────────────────────────────────────────────────

/// A message that is handed over to be sent.
pub type Handover = (ComposeId, Text, ComposeModel);

/// The messages handed over among some effects.
pub open spec fn handed_over(effects: Seq<EffectModel>) -> Seq<Handover>
    decreases effects.len(),
{
    if effects.len() == 0 {
        seq![]
    } else {
        let before = handed_over(effects.drop_last());
        match effects.last() {
            EffectModel::Smtp { id, account, compose } => before.push((id, account, compose)),
            _ => before,
        }
    }
}

/// Whether a window's message is to be sent now: Send was clicked, the window is
/// not being discarded, and it names an account that can send.
pub open spec fn sends_now(w: WindowModel, ready: Seq<Text>) -> bool {
    !w.finished && w.send_requested && (w.state.account_id matches Some(account)
        && ready.contains(account))
}

/// The messages of windows whose Send was clicked, as the windows hold them, each
/// from the account its window names.
pub open spec fn to_be_sent(windows: Seq<WindowModel>, ready: Seq<Text>) -> Seq<Handover>
    decreases windows.len(),
{
    if windows.len() == 0 {
        seq![]
    } else {
        let w = windows.last();
        let before = to_be_sent(windows.drop_last(), ready);
        if sends_now(w, ready) {
            before.push((w.id, w.state.account_id->0, w.state))
        } else {
            before
        }
    }
}

proof fn lemma_handed_push(effects: Seq<EffectModel>, effect: EffectModel)
    ensures
        handed_over(effects.push(effect)) == (match effect {
            EffectModel::Smtp { id, account, compose } => handed_over(effects).push(
                (id, account, compose),
            ),
            _ => handed_over(effects),
        }),
{
    assert(effects.push(effect).drop_last() =~= effects);
}

/// The windows that are not finished.
pub open spec fn unfinished(windows: Seq<WindowModel>) -> Seq<WindowModel> {
    windows.filter(|w: WindowModel| !w.finished)
}

proof fn lemma_unfinished(windows: Seq<WindowModel>)
    ensures
        unfinished(windows).len() <= windows.len(),
        forall|i: int|
            0 <= i < unfinished(windows).len() ==> windows.contains(#[trigger] unfinished(windows)[i]),
{
    let open = |w: WindowModel| !w.finished;
    windows.lemma_filter_len(open);
    assert forall|i: int| 0 <= i < unfinished(windows).len() implies windows.contains(
        #[trigger] unfinished(windows)[i],
    ) by {
        assert(windows.filter(open).contains(windows.filter(open)[i]));
        windows.lemma_filter_contains_rev(open, windows.filter(open)[i]);
    }
}

/// Closing the finished windows leaves the others, and hands nothing over.
proof fn lemma_finished_are_closed(s: AppModel, n: int)
    requires
        outbox_laws::windows_are_distinct(s),
        0 <= n <= s.compose_windows.len(),
    ensures
        ({
            let ws = s.compose_windows;
            let t = s.composes_closed(app_outbox::finished_ids(ws.take(n)));
            &&& t.compose_windows == unfinished(ws.take(n)) + ws.skip(n)
            &&& handed_over(t.effects) == handed_over(s.effects)
            &&& t.accounts == s.accounts && t.sending_from == s.sending_from
        }),
    decreases n,
{
    let ws = s.compose_windows;
    reveal(Seq::filter);
    if n == 0 {
        assert(unfinished(ws.take(0)) + ws.skip(0) =~= ws);
        assert(app_outbox::finished_ids(ws.take(0)) =~= seq![]);
    } else {
        lemma_finished_are_closed(s, n - 1);
        let few = ws.take(n - 1);
        let w = ws[n - 1];
        assert(ws.take(n).drop_last() =~= few);
        assert(ws.take(n).last() == w);
        let before = s.composes_closed(app_outbox::finished_ids(few));
        let kept = unfinished(few);
        if w.finished {
            let ids = app_outbox::finished_ids(ws.take(n));
            assert(ids.drop_last() =~= app_outbox::finished_ids(few));
            assert(ids.last() == w.id);
            let k = kept.len() as int;
            let all = before.compose_windows;
            assert(all == kept + ws.skip(n - 1));
            assert(all[k] == w);
            app_outbox::lemma_window_index(all, w.id);
            let m = app_outbox::window_index(all, w.id);
            assert(m == k) by {
                if m < 0 {
                    assert(all[k].id == w.id);
                } else if m < k {
                    lemma_unfinished(few);
                    assert(few.contains(kept[m]));
                    let j = choose|j: int| 0 <= j < few.len() && few[j] == kept[m];
                    assert(ws[j].id == w.id);
                } else if m > k {
                    assert(all[m] == ws[n - 1 + (m - k)]);
                }
            }
            assert(all.remove(k) =~= kept + ws.skip(n));
            lemma_handed_push(before.effects, EffectModel::HideCompose(w.id));
            lemma_handed_push(
                before.effects.push(EffectModel::HideCompose(w.id)),
                EffectModel::Repaint,
            );
        } else {
            assert(kept.push(w) + ws.skip(n) =~= kept + ws.skip(n - 1));
        }
    }
}

/// The messages that requests hand over.
spec fn granted(requests: Seq<RequestModel>, ready: Seq<Text>) -> Seq<Handover>
    decreases requests.len(),
{
    if requests.len() == 0 {
        seq![]
    } else {
        let r = requests.last();
        let before = granted(requests.drop_last(), ready);
        if r.from matches Some(account) && ready.contains(account) {
            before.push((r.id, r.from->0, r.compose))
        } else {
            before
        }
    }
}

proof fn lemma_requests_are_granted(s: AppModel, requests: Seq<RequestModel>, ready: Seq<Text>)
    requires
        forall|i: int| 0 <= i < requests.len() ==> s.has_window((#[trigger] requests[i]).id),
    ensures
        handed_over(s.sends_wanted(requests, ready).effects) == handed_over(s.effects) + granted(
            requests,
            ready,
        ),
        s.sends_wanted(requests, ready).compose_windows.len() == s.compose_windows.len(),
        forall|i: int|
            0 <= i < s.compose_windows.len() ==> (#[trigger] s.sends_wanted(
                requests,
                ready,
            ).compose_windows[i]).id == s.compose_windows[i].id,
    decreases requests.len(),
{
    if requests.len() == 0 {
        assert(handed_over(s.effects) + granted(requests, ready) =~= handed_over(s.effects));
    } else {
        let few = requests.drop_last();
        let r = requests.last();
        assert forall|i: int| 0 <= i < few.len() implies s.has_window((#[trigger] few[i]).id) by {
            assert(few[i] == requests[i]);
        }
        lemma_requests_are_granted(s, few, ready);
        let before = s.sends_wanted(few, ready);
        app_outbox::lemma_window_index_same(s.compose_windows, before.compose_windows, r.id);
        assert(requests[requests.len() - 1] == r);
        assert(before.has_window(r.id));
        app_outbox::lemma_window_index(before.compose_windows, r.id);
        let t = before.send_wanted(r, ready);
        let repaint = EffectModel::RepaintCompose(r.id);
        match r.from {
            Some(account) => {
                if ready.contains(account) {
                    let smtp = EffectModel::Smtp { id: r.id, account, compose: r.compose };
                    lemma_handed_push(before.effects, smtp);
                    lemma_handed_push(before.effects.push(smtp), repaint);
                    assert(t.effects == before.effects.push(smtp).push(repaint));
                } else {
                    lemma_handed_push(before.effects, repaint);
                    assert(t.effects == before.effects.push(repaint));
                }
            },
            None => {
                lemma_handed_push(before.effects, repaint);
                assert(t.effects == before.effects.push(repaint));
            },
        }
        assert(handed_over(t.effects) =~= handed_over(s.effects) + granted(requests, ready));
    }
}

proof fn lemma_requests_of_windows(windows: Seq<WindowModel>, ready: Seq<Text>)
    requires
        forall|i: int| 0 <= i < windows.len() ==> !(#[trigger] windows[i]).finished,
    ensures
        granted(app_outbox::requests_of(windows), ready) == to_be_sent(windows, ready),
        forall|i: int|
            0 <= i < app_outbox::requests_of(windows).len() ==> exists|j: int|
                0 <= j < windows.len() && (#[trigger] windows[j]).id == (
                #[trigger] app_outbox::requests_of(windows)[i]).id,
    decreases windows.len(),
{
    if windows.len() > 0 {
        let few = windows.drop_last();
        let w = windows.last();
        assert forall|i: int| 0 <= i < few.len() implies !(#[trigger] few[i]).finished by {
            assert(few[i] == windows[i]);
        }
        lemma_requests_of_windows(few, ready);
        assert(!windows[windows.len() - 1].finished);
        let all = app_outbox::requests_of(windows);
        let before = app_outbox::requests_of(few);
        if w.send_requested {
            assert(all.drop_last() =~= before);
        }
        assert forall|i: int| 0 <= i < all.len() implies exists|j: int|
            0 <= j < windows.len() && (#[trigger] windows[j]).id == (#[trigger] all[i]).id by {
            if i < before.len() {
                assert(all[i] == before[i]);
                let j = choose|j: int| 0 <= j < few.len() && (#[trigger] few[j]).id == before[i].id;
                assert(windows[j].id == all[i].id);
            } else {
                assert(windows[windows.len() - 1].id == all[i].id);
            }
        }
    }
}

proof fn lemma_to_be_sent_of_unfinished(windows: Seq<WindowModel>, ready: Seq<Text>)
    ensures
        to_be_sent(unfinished(windows), ready) == to_be_sent(windows, ready),
        forall|i: int|
            0 <= i < unfinished(windows).len() ==> !(#[trigger] unfinished(windows)[i]).finished,
    decreases windows.len(),
{
    reveal(Seq::filter);
    if windows.len() > 0 {
        lemma_to_be_sent_of_unfinished(windows.drop_last(), ready);
        let kept = unfinished(windows.drop_last());
        if !windows.last().finished {
            assert(unfinished(windows).drop_last() =~= kept);
            assert(unfinished(windows).last() == windows.last());
        }
    }
}

/// Once the windows were looked at, every message whose Send was clicked and whose
/// account can send was handed over, once and in the order of the windows, from
/// that account and exactly as its window holds it: recipients, subject, text,
/// attachments and threading. No other message was.
pub proof fn law_every_message_is_sent_as_its_window_holds_it(s: AppModel, ready: Seq<Text>)
    requires
        outbox_laws::windows_are_distinct(s),
    ensures
        handed_over(s.composes_processed(ready).effects) == handed_over(s.effects) + to_be_sent(
            s.compose_windows,
            ready,
        ),
{
    let ws = s.compose_windows;
    let n = ws.len() as int;
    lemma_finished_are_closed(s, n);
    assert(ws.take(n) =~= ws);
    let c = s.composes_closed(app_outbox::finished_ids(ws));
    assert(c.compose_windows =~= unfinished(ws));
    lemma_to_be_sent_of_unfinished(ws, ready);
    lemma_requests_of_windows(c.compose_windows, ready);
    let requests = app_outbox::requests_of(c.compose_windows);
    let taken = AppModel { compose_windows: app_outbox::requests_taken(c.compose_windows), ..c };
    assert forall|i: int| 0 <= i < requests.len() implies taken.has_window(
        (#[trigger] requests[i]).id,
    ) by {
        let j = choose|j: int|
            0 <= j < c.compose_windows.len() && (#[trigger] c.compose_windows[j]).id
                == requests[i].id;
        assert(taken.compose_windows[j].id == requests[i].id);
        app_outbox::lemma_window_index(taken.compose_windows, requests[i].id);
    }
    lemma_requests_are_granted(taken, requests, ready);
}

/// Of a window whose Send was clicked and whose account can send, exactly one
/// message is among those to be sent, and it is the window's own.
pub proof fn law_a_window_sends_its_own_message_once(windows: Seq<WindowModel>, ready: Seq<Text>, k: int)
    requires
        0 <= k < windows.len(),
        forall|i: int, j: int|
            0 <= i < j < windows.len() ==> (#[trigger] windows[i]).id != (#[trigger] windows[j]).id,
    ensures
        ({
            let own = to_be_sent(windows, ready).filter(|h: Handover| h.0 == windows[k].id);
            &&& sends_now(windows[k], ready) ==> own == seq![
                (windows[k].id, windows[k].state.account_id->0, windows[k].state),
            ]
            &&& !sends_now(windows[k], ready) ==> own == Seq::<Handover>::empty()
        }),
    decreases windows.len(),
{
    reveal(Seq::filter);
    let mine = |h: Handover| h.0 == windows[k].id;
    let few = windows.drop_last();
    let last = windows.last();
    if k < few.len() {
        assert forall|i: int, j: int| 0 <= i < j < few.len() implies (#[trigger] few[i]).id != (
        #[trigger] few[j]).id by {
            assert(few[i] == windows[i] && few[j] == windows[j]);
        }
        assert(few[k] == windows[k]);
        law_a_window_sends_its_own_message_once(few, ready, k);
        assert(windows[windows.len() - 1].id != windows[k].id);
    } else {
        lemma_others_send_nothing(few, ready, windows[k].id);
        assert(last == windows[k]);
    }
    let before = to_be_sent(few, ready);
    let all = to_be_sent(windows, ready);
    if sends_now(last, ready) {
        assert(all.drop_last() =~= before);
        assert(all.last() == (last.id, last.state.account_id->0, last.state));
    }
    if k == few.len() && sends_now(last, ready) {
        assert(all.filter(mine) =~= seq![
            (windows[k].id, windows[k].state.account_id->0, windows[k].state),
        ]);
    }
}

proof fn lemma_others_send_nothing(windows: Seq<WindowModel>, ready: Seq<Text>, id: ComposeId)
    requires
        forall|i: int| 0 <= i < windows.len() ==> (#[trigger] windows[i]).id != id,
    ensures
        to_be_sent(windows, ready).filter(|h: Handover| h.0 == id) == Seq::<Handover>::empty(),
    decreases windows.len(),
{
    reveal(Seq::filter);
    if windows.len() > 0 {
        let few = windows.drop_last();
        assert forall|i: int| 0 <= i < few.len() implies (#[trigger] few[i]).id != id by {
            assert(few[i] == windows[i]);
        }
        lemma_others_send_nothing(few, ready, id);
        assert(windows[windows.len() - 1].id != id);
        let all = to_be_sent(windows, ready);
        if sends_now(windows.last(), ready) {
            assert(all.drop_last() =~= to_be_sent(few, ready));
        }
    } else {
        assert(to_be_sent(windows, ready).filter(|h: Handover| h.0 == id) =~= Seq::<
            Handover,
        >::empty());
    }
}

/// A message that is handed over is remembered under its window, with the account
/// it is sent from and, if it waits in the outbox, as outstanding there; the window
/// is locked. Nothing else changes.
pub proof fn law_a_handover_is_remembered(s: AppModel, id: ComposeId, account: Text, compose: ComposeModel)
    ensures
        s.sending(id, account, compose) == (AppModel {
            sending_from: s.sending_from.insert(id, account),
            outbox_in_flight: if s.outbox_owner.dom().contains(id) {
                s.outbox_in_flight.insert(s.outbox_owner[id])
            } else {
                s.outbox_in_flight
            },
            effects: s.effects.push(EffectModel::Smtp { id, account, compose }),
            ..s
        }),
{
}

/// What a window is told when its Send was clicked: it is locked while its message
/// is sent, without an error; where no account is chosen or the account cannot
/// send, it says so and stays open. What was written stays as it is.
pub proof fn law_a_window_is_told_what_becomes_of_its_message(
    s: AppModel,
    request: RequestModel,
    ready: Seq<Text>,
    k: int,
)
    requires
        0 <= k < s.compose_windows.len(),
        s.compose_windows[k].id == request.id,
        forall|i: int| 0 <= i < k ==> (#[trigger] s.compose_windows[i]).id != request.id,
    ensures
        ({
            let t = s.send_wanted(request, ready);
            let old = s.compose_windows[k];
            let new = t.compose_windows[k];
            &&& t.compose_windows == s.compose_windows.update(k, new)
            &&& request.from is None ==> new == (WindowModel {
                sending: false,
                error: Some("Choose an account to send from."@),
                ..old
            })
            &&& request.from is Some && ready.contains(request.from->0) ==> new == (WindowModel {
                sending: true,
                error: None,
                ..old
            })
            &&& request.from is Some && !ready.contains(request.from->0) ==> new == (WindowModel {
                sending: false,
                error: Some("No SMTP password on file yet — connect once via IMAP first."@),
                ..old
            })
            &&& t.effects.last() == EffectModel::RepaintCompose(request.id)
        }),
{
    lemma_window_at(s.compose_windows, request.id, k);
}

/// The first window with an id is the one that is found.
proof fn lemma_window_at(windows: Seq<WindowModel>, id: ComposeId, k: int)
    requires
        0 <= k < windows.len(),
        windows[k].id == id,
        forall|i: int| 0 <= i < k ==> (#[trigger] windows[i]).id != id,
    ensures
        app_outbox::window_index(windows, id) == k,
    decreases windows.len(),
{
    app_outbox::lemma_window_index(windows, id);
    let few = windows.drop_last();
    if k < few.len() {
        assert forall|i: int| 0 <= i < k implies (#[trigger] few[i]).id != id by {
            assert(few[i] == windows[i]);
        }
        lemma_window_at(few, id, k);
    } else {
        app_outbox::lemma_window_index(few, id);
        let m = app_outbox::window_index(few, id);
        if m >= 0 {
            assert(windows[m] == few[m]);
        }
    }
}

// ── Sending again ───────────────────────────────────────────────────────────

/// Whether an outbox row can be sent again now: no attempt at it is outstanding,
/// and no open window owns it.
pub open spec fn is_free(s: AppModel, row: i64) -> bool {
    &&& !s.outbox_in_flight.contains(row)
    &&& forall|i: int|
        0 <= i < s.compose_windows.len() ==> !(s.outbox_owner.dom().contains(
            (#[trigger] s.compose_windows[i]).id,
        ) && s.outbox_owner[s.compose_windows[i].id] == row)
}

/// A message that waits in the outbox is handed over exactly as it was kept, from
/// the account it was written for, under an id of its own that owns its row. If
/// the account cannot send, the row is marked as failed, with the reason.
pub proof fn law_a_waiting_message_is_sent_as_it_was_kept(s: AppModel, item: OutboxItemModel, ready: Seq<Text>)
    requires
        is_free(s, item.id),
        s.next_compose_id < u64::MAX,
    ensures
        ({
            let t = s.retried(item, ready);
            let id = (s.next_compose_id + 1) as u64;
            &&& ready.contains(item.account_id) ==> t == (AppModel {
                next_compose_id: id,
                outbox_owner: s.outbox_owner.insert(id, item.id),
                outbox_in_flight: s.outbox_in_flight.insert(item.id),
                sending_from: s.sending_from.insert(id, item.account_id),
                effects: s.effects.push(
                    EffectModel::Smtp { id, account: item.account_id, compose: item.compose },
                ),
                ..s
            })
            &&& !ready.contains(item.account_id) ==> t == (AppModel {
                next_compose_id: id,
                effects: s.effects.push(
                    EffectModel::Queue(
                        QueueCommandModel::MarkOutboxFailed {
                            id: item.id,
                            error: "No SMTP password on file for this account"@,
                        },
                    ),
                ),
                ..s
            })
        }),
{
    assert(!s.row_is_open(item.id));
}

/// Of several messages that wait in the outbox, each is handed over once, in their
/// order, exactly as it was kept.
pub proof fn law_all_waiting_messages_are_sent_as_they_were_kept(
    s: AppModel,
    items: Seq<OutboxItemModel>,
    ready: Seq<Text>,
)
    requires
        s.next_compose_id + items.len() <= u64::MAX,
        outbox_laws::windows_are_distinct(s),
        forall|i: int|
            0 <= i < items.len() ==> is_free(s, (#[trigger] items[i]).id) && ready.contains(
                items[i].account_id,
            ),
        forall|i: int, j: int|
            0 <= i < j < items.len() ==> (#[trigger] items[i]).id != (#[trigger] items[j]).id,
    ensures
        ({
            let t = s.on_queue(QueueEventModel::OutboxDue { items }, ready);
            &&& t.effects == s.effects + Seq::new(
                items.len(),
                |i: int|
                    EffectModel::Smtp {
                        id: (s.next_compose_id + 1 + i) as u64,
                        account: items[i].account_id,
                        compose: items[i].compose,
                    },
            )
            &&& t.next_compose_id == s.next_compose_id + items.len()
            &&& t.compose_windows == s.compose_windows
            &&& forall|row: i64| #[trigger]
                t.outbox_in_flight.contains(row) <==> s.outbox_in_flight.contains(row) || exists|
                    i: int,
                |
                    0 <= i < items.len() && (#[trigger] items[i]).id == row
            &&& forall|id: ComposeId|
                id <= s.next_compose_id ==> (#[trigger] t.outbox_owner.dom().contains(id)
                    == s.outbox_owner.dom().contains(id)) && (s.outbox_owner.dom().contains(id)
                    ==> t.outbox_owner[id] == s.outbox_owner[id])
        }),
    decreases items.len(),
{
    let t = s.all_retried(items, ready);
    assert(s.on_queue(QueueEventModel::OutboxDue { items }, ready) == t);
    let all = Seq::new(
        items.len(),
        |i: int|
            EffectModel::Smtp {
                id: (s.next_compose_id + 1 + i) as u64,
                account: items[i].account_id,
                compose: items[i].compose,
            },
    );
    if items.len() == 0 {
        assert(t.effects =~= s.effects + all);
    } else {
        let few = items.drop_last();
        let last = items.last();
        assert forall|i: int| 0 <= i < few.len() implies is_free(s, (#[trigger] few[i]).id)
            && ready.contains(few[i].account_id) by {
            assert(few[i] == items[i]);
        }
        assert forall|i: int, j: int| 0 <= i < j < few.len() implies (#[trigger] few[i]).id != (
        #[trigger] few[j]).id by {
            assert(few[i] == items[i] && few[j] == items[j]);
        }
        law_all_waiting_messages_are_sent_as_they_were_kept(s, few, ready);
        let before = s.all_retried(few, ready);
        assert(items[items.len() - 1] == last);
        assert(is_free(before, last.id)) by {
            if before.outbox_in_flight.contains(last.id) {
                let i = choose|i: int| 0 <= i < few.len() && (#[trigger] few[i]).id == last.id;
                assert(items[i].id == last.id);
            }
            assert forall|i: int| 0 <= i < before.compose_windows.len() implies !(
            before.outbox_owner.dom().contains((#[trigger] before.compose_windows[i]).id)
                && before.outbox_owner[before.compose_windows[i].id] == last.id) by {
                assert(s.compose_windows[i].id <= s.next_compose_id);
                let id = s.compose_windows[i].id;
                assert(before.outbox_owner.dom().contains(id) == s.outbox_owner.dom().contains(id));
            }
        }
        law_a_waiting_message_is_sent_as_it_was_kept(before, last, ready);
        assert(t == before.retried(last, ready));
        assert(t.effects =~= s.effects + all);
        assert forall|id: ComposeId| id <= s.next_compose_id implies (
        #[trigger] t.outbox_owner.dom().contains(id) == s.outbox_owner.dom().contains(id)) && (
        s.outbox_owner.dom().contains(id) ==> t.outbox_owner[id] == s.outbox_owner[id]) by {
            assert(before.outbox_owner.dom().contains(id) == s.outbox_owner.dom().contains(id));
            assert(id != (before.next_compose_id + 1) as u64);
        }
        assert forall|row: i64| #[trigger]
            t.outbox_in_flight.contains(row) <==> s.outbox_in_flight.contains(row) || exists|i: int|
                0 <= i < items.len() && (#[trigger] items[i]).id == row by {
            if before.outbox_in_flight.contains(row) && !s.outbox_in_flight.contains(row) {
                let i = choose|i: int| 0 <= i < few.len() && (#[trigger] few[i]).id == row;
                assert(items[i].id == row);
            }
            if exists|i: int| 0 <= i < items.len() && (#[trigger] items[i]).id == row {
                let i = choose|i: int| 0 <= i < items.len() && (#[trigger] items[i]).id == row;
                if i < few.len() {
                    assert(few[i].id == row);
                }
            }
        }
    }
}

// ── What became of a send ───────────────────────────────────────────────────

/// A message that was sent is said to have been; its window closes and its draft
/// goes. A copy of the very bytes that were sent goes to the account it was sent
/// from, into the folder with the role of sent mail or one named so.
pub proof fn law_a_copy_of_what_was_sent_is_kept(s: AppModel, id: ComposeId, raw: Seq<u8>, at: int)
    requires
        s.sending_from.dom().contains(id),
        command_laws::lives_at(s, s.sending_from[id], at),
    ensures
        ({
            let t = s.on_smtp(SmtpEventModel::Sent { id, raw });
            let account = s.sending_from[id];
            &&& t.status == "Message sent"@
            &&& t.sending_from == s.sending_from.remove(id)
            &&& t.effects.last() matches EffectModel::Imap {
                account: a,
                cmd: ImapCommandModel::Append { mailbox, raw: r },
            } && a == account && r == raw && command_laws::is_folder_for(
                s.accounts[at].mailbox_rows,
                SpecialUse::Sent,
                "Sent"@,
                mailbox,
            )
        }),
{
    let account = s.sending_from[id];
    command_laws::lemma_lives(s, account, at);
    command_laws::law_folders_are_found_by_their_role(
        s.accounts[at].mailbox_rows,
        SpecialUse::Sent,
        "Sent"@,
    );
    outbox_laws::law_the_copy_goes_to_the_sender(s, id, raw);
}

/// When a message was sent, its window closes, and the draft that was kept of it
/// is deleted.
pub proof fn law_a_sent_message_closes_its_window(s: AppModel, id: ComposeId, raw: Seq<u8>, k: int)
    requires
        outbox_laws::windows_are_distinct(s),
        0 <= k < s.compose_windows.len(),
        s.compose_windows[k].id == id,
    ensures
        ({
            let t = s.on_smtp(SmtpEventModel::Sent { id, raw });
            &&& t.compose_windows == s.compose_windows.remove(k)
            &&& t.effects.contains(EffectModel::HideCompose(id))
            &&& s.compose_windows[k].state.draft_id matches Some(draft) ==> t.effects.contains(
                EffectModel::Queue(QueueCommandModel::DeleteDraft { id: draft }),
            )
        }),
{
    lemma_window_at(s.compose_windows, id, k);
    let a = s.draft_done(id);
    let b = a.compose_closed(id);
    assert(a.compose_windows == s.compose_windows);
    assert(b.effects == a.effects.push(EffectModel::HideCompose(id)).push(EffectModel::Repaint));
    let c = if s.outbox_owner.dom().contains(id) {
        b.row_sent(id, s.outbox_owner[id])
    } else {
        b
    };
    let t = s.on_smtp(SmtpEventModel::Sent { id, raw });
    assert(t.compose_windows == b.compose_windows);
    assert(t.effects.take(b.effects.len() as int) =~= b.effects);
    let n = a.effects.len() as int;
    assert(b.effects[n] == EffectModel::HideCompose(id));
    assert(t.effects[n] == b.effects[n]);
    if let Some(draft) = s.compose_windows[k].state.draft_id {
        let gone = EffectModel::Queue(QueueCommandModel::DeleteDraft { id: draft });
        assert(a.effects.last() == gone);
        assert(t.effects[n - 1] == gone);
    }
}

/// A message whose send failed for the first time is kept exactly as its window
/// holds it, for the account the window names; later failures are noted on its
/// row, with the reason. The window, if it is still open, says what went wrong and
/// can be used again; otherwise a notice does.
pub proof fn law_a_failed_message_is_kept_as_it_was_written(s: AppModel, id: ComposeId, error: Text, k: int)
    requires
        0 <= k < s.compose_windows.len(),
        s.compose_windows[k].id == id,
        forall|i: int| 0 <= i < k ==> (#[trigger] s.compose_windows[i]).id != id,
    ensures
        ({
            let t = s.on_smtp(SmtpEventModel::Error { id, error });
            let w = s.compose_windows[k];
            let kept = if s.outbox_owner.dom().contains(id) {
                s.effects.push(
                    EffectModel::Queue(
                        QueueCommandModel::MarkOutboxFailed { id: s.outbox_owner[id], error },
                    ),
                )
            } else if w.state.account_id is Some {
                s.effects.push(
                    EffectModel::Queue(
                        QueueCommandModel::EnqueueOutbox {
                            id: None,
                            compose_id: id,
                            account_id: w.state.account_id->0,
                            compose: w.state,
                        },
                    ),
                )
            } else {
                s.effects
            };
            &&& t.effects == kept.push(EffectModel::RepaintCompose(id))
            &&& t.compose_windows == s.compose_windows.update(
                k,
                WindowModel { sending: false, error: Some("Send failed: "@ + error), ..w },
            )
            &&& t.sending_from == s.sending_from.remove(id)
            &&& t.outbox_in_flight == (if s.outbox_owner.dom().contains(id) {
                s.outbox_in_flight.remove(s.outbox_owner[id])
            } else {
                s.outbox_in_flight
            })
            &&& t.outbox_owner == s.outbox_owner && t.banners == s.banners && t.status == s.status
        }),
{
    lemma_window_at(s.compose_windows, id, k);
    let a = AppModel { sending_from: s.sending_from.remove(id), ..s };
    let b = a.failure_kept(id, error);
    lemma_failure_kept(a, id, error, k);
    lemma_failure_shown(b, id, "Send failed: "@ + error, k);
    assert(s.on_smtp(SmtpEventModel::Error { id, error }) == b.failure_shown(
        id,
        "Send failed: "@ + error,
    ));
}

/// What a failure has the store keep.
spec fn keeps(s: AppModel, id: ComposeId, error: Text, k: int) -> Seq<EffectModel> {
    let w = s.compose_windows[k];
    if s.outbox_owner.dom().contains(id) {
        s.effects.push(
            EffectModel::Queue(
                QueueCommandModel::MarkOutboxFailed { id: s.outbox_owner[id], error },
            ),
        )
    } else if w.state.account_id is Some {
        s.effects.push(
            EffectModel::Queue(
                QueueCommandModel::EnqueueOutbox {
                    id: None,
                    compose_id: id,
                    account_id: w.state.account_id->0,
                    compose: w.state,
                },
            ),
        )
    } else {
        s.effects
    }
}

proof fn lemma_failure_kept(s: AppModel, id: ComposeId, error: Text, k: int)
    requires
        0 <= k < s.compose_windows.len(),
        s.compose_windows[k].id == id,
        forall|i: int| 0 <= i < k ==> (#[trigger] s.compose_windows[i]).id != id,
    ensures
        s.failure_kept(id, error) == (AppModel {
            effects: keeps(s, id, error, k),
            outbox_in_flight: if s.outbox_owner.dom().contains(id) {
                s.outbox_in_flight.remove(s.outbox_owner[id])
            } else {
                s.outbox_in_flight
            },
            ..s
        }),
{
    lemma_window_at(s.compose_windows, id, k);
}

proof fn lemma_failure_shown(s: AppModel, id: ComposeId, message: Text, k: int)
    requires
        0 <= k < s.compose_windows.len(),
        s.compose_windows[k].id == id,
        forall|i: int| 0 <= i < k ==> (#[trigger] s.compose_windows[i]).id != id,
    ensures
        s.failure_shown(id, message) == (AppModel {
            effects: s.effects.push(EffectModel::RepaintCompose(id)),
            compose_windows: s.compose_windows.update(
                k,
                WindowModel { sending: false, error: Some(message), ..s.compose_windows[k] },
            ),
            ..s
        }),
{
    lemma_window_at(s.compose_windows, id, k);
}

/// A failed send whose window is gone is said in a notice; if the message waits in
/// the outbox, the failure is noted there.
pub proof fn law_a_failure_without_a_window_is_said(s: AppModel, id: ComposeId, error: Text)
    requires
        forall|i: int| 0 <= i < s.compose_windows.len() ==> (#[trigger] s.compose_windows[i]).id != id,
    ensures
        ({
            let t = s.on_smtp(SmtpEventModel::Error { id, error });
            &&& t.banners == crate::event_laws::notified(s, "Send failed: "@ + error).banners
            &&& t.compose_windows == s.compose_windows
            &&& t.effects == (if s.outbox_owner.dom().contains(id) {
                s.effects.push(
                    EffectModel::Queue(
                        QueueCommandModel::MarkOutboxFailed { id: s.outbox_owner[id], error },
                    ),
                )
            } else {
                s.effects
            })
        }),
{
    app_outbox::lemma_window_index(s.compose_windows, id);
}

/// The row that the store made for a message is owned by the window the message
/// was written in.
pub proof fn law_rows_belong_to_their_window(s: AppModel, id: i64, compose_id: ComposeId, ready: Seq<Text>)
    ensures
        s.on_queue(QueueEventModel::OutboxEnqueued { id, compose_id }, ready) == (AppModel {
            outbox_owner: s.outbox_owner.insert(compose_id, id),
            ..s
        }),
{
}

/// A send that was refused before it began is not outstanding any more, and its
/// window says so and can be used again.
pub proof fn law_a_refused_send_is_said(s: AppModel, id: ComposeId, k: int)
    requires
        0 <= k < s.compose_windows.len(),
        s.compose_windows[k].id == id,
        forall|i: int| 0 <= i < k ==> (#[trigger] s.compose_windows[i]).id != id,
    ensures
        ({
            let t = s.send_refused(id);
            let w = s.compose_windows[k];
            &&& !t.sending_from.dom().contains(id)
            &&& s.outbox_owner.dom().contains(id) ==> !t.outbox_in_flight.contains(s.outbox_owner[id])
            &&& t.compose_windows == s.compose_windows.update(
                k,
                WindowModel {
                    sending: false,
                    error: Some("Could not queue the message for sending."@),
                    ..w
                },
            )
        }),
{
    lemma_window_at(s.compose_windows, id, k);
}

// ── Drafts ──────────────────────────────────────────────────────────────────

/// Whether a message holds any text.
pub open spec fn holds_text(c: ComposeModel) -> bool {
    c.to.len() + c.cc.len() + c.bcc.len() + c.subject.len() + c.body.len() > 0
}

/// A window that holds any text is saved as it stands, five seconds after it was
/// last saved or at once if it never was, over the draft it was saved as before;
/// sooner it is not, and one without text never is.
pub proof fn law_a_window_saves_what_it_holds(s: AppModel, w: WindowModel, now: u64)
    ensures
        ({
            let t = s.autosaved(w, now);
            let due = s.compose_last_autosave.dom().contains(w.id) ==> now
                >= s.compose_last_autosave[w.id] + 5000;
            &&& !due ==> t == s
            &&& due ==> t == (AppModel {
                compose_last_autosave: s.compose_last_autosave.insert(w.id, now),
                effects: if holds_text(w.state) {
                    s.effects.push(
                        EffectModel::Queue(
                            QueueCommandModel::SaveDraft {
                                id: w.state.draft_id,
                                compose_id: w.id,
                                account_id: w.state.account_id,
                                compose: w.state,
                            },
                        ),
                    )
                } else {
                    s.effects
                },
                ..s
            })
        }),
{
}

/// A saved draft becomes the one its window saves over from then on; what was
/// written stays, and a window without changes still has none.
pub proof fn law_a_window_remembers_its_draft(s: AppModel, id: i64, compose_id: ComposeId, ready: Seq<Text>, k: int)
    requires
        0 <= k < s.compose_windows.len(),
        s.compose_windows[k].id == compose_id,
        forall|i: int| 0 <= i < k ==> (#[trigger] s.compose_windows[i]).id != compose_id,
    ensures
        ({
            let w = s.compose_windows[k];
            s.on_queue(QueueEventModel::DraftSaved { id, compose_id }, ready) == (AppModel {
                compose_windows: s.compose_windows.update(
                    k,
                    WindowModel {
                        state: ComposeModel { draft_id: Some(id), ..w.state },
                        initial: ComposeModel { draft_id: Some(id), ..w.initial },
                        ..w
                    },
                ),
                ..s
            })
        }),
{
    lemma_window_at(s.compose_windows, compose_id, k);
}

/// A window that opens stands behind the others and holds just what it was opened
/// with, under a new id, with nothing to lose.
pub proof fn law_a_window_opens_with_its_message(s: AppModel, state: ComposeModel, focus: Focus)
    requires
        s.next_compose_id < u64::MAX,
    ensures
        ({
            let t = s.compose_opened(state, focus);
            &&& t.next_compose_id == s.next_compose_id + 1
            &&& t == (AppModel {
                next_compose_id: t.next_compose_id,
                compose_windows: s.compose_windows.push(
                    WindowModel {
                        id: t.next_compose_id,
                        state,
                        initial: state,
                        accounts: seq![],
                        error: None,
                        sending: false,
                        send_requested: false,
                        finished: false,
                        confirm_discard: false,
                        focus: Some(focus),
                    },
                ),
                ..s
            })
        }),
{
}

/// A draft that is opened again holds what was saved, and is saved over the same
/// draft; the list of drafts closes.
pub proof fn law_a_draft_is_written_on(s: AppModel, id: i64, compose: ComposeModel, ready: Seq<Text>)
    requires
        s.next_compose_id < u64::MAX,
    ensures
        ({
            let t = s.on_queue(QueueEventModel::DraftLoaded { id, compose }, ready);
            let w = t.compose_windows.last();
            &&& t.drafts_window is None
            &&& t.compose_windows.drop_last() == s.compose_windows
            &&& w.state == (ComposeModel { draft_id: Some(id), ..compose })
            &&& w.initial == w.state && w.id == s.next_compose_id + 1 && w.focus == Some(Focus::Body)
            &&& t.effects == s.effects
        }),
{
    let t = s.on_queue(QueueEventModel::DraftLoaded { id, compose }, ready);
    assert(t.compose_windows.drop_last() =~= s.compose_windows);
}

/// Asking for the drafts or the outbox opens an empty list and asks the store for
/// it; what the store answers is what is listed.
pub proof fn law_lists_show_what_the_store_holds(
    s: AppModel,
    drafts: Seq<DraftSummaryModel>,
    items: Seq<OutboxItemModel>,
    ready: Seq<Text>,
)
    ensures
        s.drafts_wanted() == (AppModel {
            drafts_window: Some(seq![]),
            effects: s.effects.push(EffectModel::Queue(QueueCommandModel::ListDrafts)),
            ..s
        }),
        s.outbox_wanted() == (AppModel {
            outbox_window: Some(seq![]),
            effects: s.effects.push(EffectModel::Queue(QueueCommandModel::ListOutbox)),
            ..s
        }),
        s.on_queue(QueueEventModel::DraftList { items: drafts }, ready) == (AppModel {
            drafts_window: Some(drafts),
            ..s
        }),
        s.on_queue(QueueEventModel::OutboxList { items }, ready) == (AppModel {
            outbox_window: Some(items),
            ..s
        }),
{
}

/// Deleting a draft or a waiting message has the store delete it, and takes it,
/// and nothing else, off the list.
pub proof fn law_deleting_takes_one_off_the_list(s: AppModel, id: i64)
    ensures
        s.draft_deleted(id) == (AppModel {
            effects: s.effects.push(EffectModel::Queue(QueueCommandModel::DeleteDraft { id })),
            drafts_window: match s.drafts_window {
                Some(drafts) => Some(drafts.filter(|d: DraftSummaryModel| d.id != id)),
                None => None,
            },
            ..s
        }),
        s.item_deleted(id) == (AppModel {
            effects: s.effects.push(EffectModel::Queue(QueueCommandModel::DeleteOutbox { id })),
            outbox_window: match s.outbox_window {
                Some(items) => Some(items.filter(|i: OutboxItemModel| i.id != id)),
                None => None,
            },
            ..s
        }),
{
    if let Some(drafts) = s.drafts_window {
        lemma_without_draft(drafts, id);
    }
    if let Some(items) = s.outbox_window {
        lemma_without_item(items, id);
    }
}

proof fn lemma_without_draft(drafts: Seq<DraftSummaryModel>, id: i64)
    ensures
        app_windows::without_draft(drafts, id) == drafts.filter(|d: DraftSummaryModel| d.id != id),
    decreases drafts.len(),
{
    reveal(Seq::filter);
    if drafts.len() > 0 {
        lemma_without_draft(drafts.drop_last(), id);
    }
}

proof fn lemma_without_item(items: Seq<OutboxItemModel>, id: i64)
    ensures
        app_windows::without_item(items, id) == items.filter(|i: OutboxItemModel| i.id != id),
    decreases items.len(),
{
    reveal(Seq::filter);
    if items.len() > 0 {
        lemma_without_item(items.drop_last(), id);
    }
}

/// Editing a waiting message takes it out of the outbox, in the store and on the
/// list, before it opens in a window of its own exactly as it was kept, for the
/// account it was written for.
pub proof fn law_a_waiting_message_is_edited_once(s: AppModel, id: i64, i: int)
    requires
        s.outbox_window is Some,
        0 <= i < s.outbox_window->0.len(),
        s.outbox_window->0[i].id == id,
        forall|j: int| 0 <= j < i ==> (#[trigger] s.outbox_window->0[j]).id != id,
        s.next_compose_id < u64::MAX,
    ensures
        ({
            let t = s.item_edited(id);
            let item = s.outbox_window->0[i];
            let w = t.compose_windows.last();
            &&& t.outbox_window == Some(s.outbox_window->0.remove(i))
            &&& t.effects == s.effects.push(EffectModel::Queue(QueueCommandModel::DeleteOutbox { id }))
            &&& t.compose_windows.drop_last() == s.compose_windows
            &&& w.state == (ComposeModel { account_id: Some(item.account_id), ..item.compose })
            &&& w.id == s.next_compose_id + 1 && w.focus == Some(Focus::Body)
        }),
{
    lemma_item_at(s.outbox_window->0, id, i);
    let t = s.item_edited(id);
    assert(t.compose_windows.drop_last() =~= s.compose_windows);
}

proof fn lemma_item_at(items: Seq<OutboxItemModel>, id: i64, k: int)
    requires
        0 <= k < items.len(),
        items[k].id == id,
        forall|i: int| 0 <= i < k ==> (#[trigger] items[i]).id != id,
    ensures
        app_windows::item_index(items, id) == k,
    decreases items.len(),
{
    let few = items.drop_last();
    if k < few.len() {
        assert forall|i: int| 0 <= i < k implies (#[trigger] few[i]).id != id by {
            assert(few[i] == items[i]);
        }
        lemma_item_at(few, id, k);
    } else {
        lemma_no_item(few, id);
    }
}

proof fn lemma_no_item(items: Seq<OutboxItemModel>, id: i64)
    requires
        forall|i: int| 0 <= i < items.len() ==> (#[trigger] items[i]).id != id,
    ensures
        app_windows::item_index(items, id) == -1,
    decreases items.len(),
{
    if items.len() > 0 {
        let few = items.drop_last();
        assert forall|i: int| 0 <= i < few.len() implies (#[trigger] few[i]).id != id by {
            assert(few[i] == items[i]);
        }
        lemma_no_item(few, id);
        assert(items[items.len() - 1].id != id);
    }
}

/// The store is asked for messages that are due at once, and then every twenty
/// seconds, not sooner.
pub proof fn law_the_outbox_is_looked_at_every_twenty_seconds(s: AppModel, now: u64)
    ensures
        ({
            let t = s.outbox_polled(now);
            let due = s.last_outbox_check matches Some(at) ==> now >= at + 20000;
            &&& due ==> t == (AppModel {
                last_outbox_check: Some(now),
                effects: s.effects.push(EffectModel::Queue(QueueCommandModel::DueOutbox)),
                ..s
            })
            &&& !due ==> t == s
        }),
{
}

} // verus!
