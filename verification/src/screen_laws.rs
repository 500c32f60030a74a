//! What the windows do with what the user clicks and types: a compose window keeps
//! exactly what was put into it, new messages start from where the user is, clicks
//! select what they say, and labels say what they stand for.

use vstd::prelude::*;
use vstd::string::*;
use crate::app;
use crate::app_ui::ImageBarModel;
use crate::app_windows;
use crate::app_windows::Request;
use crate::compose;
use crate::compose::ComposeModel;
use crate::compose_window;
use crate::compose_window::{ActionBarModel, ComposeId, Focus, Press, WindowModel};
use crate::events::{ImapCommandModel, ImapEventModel};
use crate::files;
use crate::imap::{AttachmentModel, MailHeaderModel};
use crate::selection;
use crate::state::{AccountModel, AppModel, ConnStateModel, EffectModel, QueueCommandModel, WindowCommand};
use crate::text;
use crate::text::Text;
use crate::tray::TrayAction;

verus! {

broadcast use vstd::string::group_string_axioms;

// ── A compose window ────────────────────────────────────────────────────────

/// Attaching a file puts it, whole and under its name, behind the files that are
/// there, and changes nothing else. A file without a name is called `attachment`.
pub proof fn law_attaching_adds_the_file(w: WindowModel, name: Text, data: Seq<u8>)
    ensures
        ({
            let t = w.with_file(Some(name), data);
            let u = w.with_file(None, data);
            &&& t.state.attachments == w.state.attachments + seq![(name, data)]
            &&& u.state.attachments == w.state.attachments + seq![("attachment"@, data)]
            &&& t == (WindowModel {
                state: ComposeModel { attachments: t.state.attachments, ..w.state },
                ..w
            })
            &&& u == (WindowModel {
                state: ComposeModel { attachments: u.state.attachments, ..w.state },
                ..w
            })
        }),
{
    let t = w.with_file(Some(name), data);
    let u = w.with_file(None, data);
    assert(t.state.attachments =~= w.state.attachments + seq![(name, data)]);
    assert(u.state.attachments =~= w.state.attachments + seq![("attachment"@, data)]);
}

/// Taking a file out keeps the others in their order and changes nothing else;
/// taking out the file attached last undoes attaching it.
pub proof fn law_taking_a_file_out_keeps_the_others(w: WindowModel, i: int, name: Text, data: Seq<u8>)
    requires
        0 <= i < w.state.attachments.len(),
    ensures
        ({
            let t = w.without_file(i);
            &&& t.state.attachments == w.state.attachments.take(i) + w.state.attachments.skip(i + 1)
            &&& t == (WindowModel {
                state: ComposeModel { attachments: t.state.attachments, ..w.state },
                ..w
            })
        }),
        w.with_file(Some(name), data).without_file(w.state.attachments.len() as int) == w,
{
    let t = w.without_file(i);
    assert(t.state.attachments =~= w.state.attachments.take(i) + w.state.attachments.skip(i + 1));
    let u = w.with_file(Some(name), data).without_file(w.state.attachments.len() as int);
    assert(u.state.attachments =~= w.state.attachments);
    assert(u.state =~= w.state);
    assert(u =~= w);
}

/// A file that cannot be read is named with the reason, and nothing else changes.
pub proof fn law_an_unreadable_file_is_named(w: WindowModel, path: Text, error: Text)
    ensures
        ({
            let t = w.file_refused(path, error);
            &&& t.error == Some("Could not read "@ + path + ": "@ + error)
            &&& t == (WindowModel { error: t.error, ..w })
        }),
{
}

/// A message is sent from the account that was chosen for it.
pub proof fn law_the_chosen_account_is_taken(w: WindowModel, i: int)
    requires
        0 <= i < w.accounts.len(),
    ensures
        ({
            let t = w.sent_from(i);
            &&& t.state.account_id == Some(w.accounts[i].0)
            &&& t == (WindowModel {
                state: ComposeModel { account_id: t.state.account_id, ..w.state },
                ..w
            })
            &&& (forall|k: int| 0 <= k < i ==> (#[trigger] w.accounts[k]).0 != w.accounts[i].0)
                ==> t.from_label() == w.accounts[i].1
        }),
{
    let t = w.sent_from(i);
    if forall|k: int| 0 <= k < i ==> (#[trigger] w.accounts[k]).0 != w.accounts[i].0 {
        lemma_label(w.accounts, w.accounts[i].0, i);
    }
}

proof fn lemma_label(accounts: Seq<(Text, Text)>, id: Text, i: int)
    ensures
        0 <= i < accounts.len() && accounts[i].0 == id && (forall|k: int|
            0 <= k < i ==> (#[trigger] accounts[k]).0 != id) ==> compose_window::label_of(accounts, id)
            == accounts[i].1,
        (forall|k: int| 0 <= k < accounts.len() ==> (#[trigger] accounts[k]).0 != id)
            ==> compose_window::label_of(accounts, id) == "(choose an account)"@,
    decreases accounts.len(),
{
    if accounts.len() > 0 {
        let rest = accounts.drop_first();
        lemma_label(rest, id, i - 1);
        assert(accounts.first() == accounts[0]);
        assert forall|k: int| 0 <= k < rest.len() implies rest[k] == accounts[k + 1] by {}
        if 0 < i < accounts.len() {
            assert(rest[i - 1] == accounts[i]);
        }
        if forall|k: int| 0 <= k < accounts.len() ==> (#[trigger] accounts[k]).0 != id {
            assert forall|k: int| 0 <= k < rest.len() implies (#[trigger] rest[k]).0 != id by {
                assert(accounts[k + 1].0 != id);
            }
        }
        if forall|k: int| 0 <= k < i ==> (#[trigger] accounts[k]).0 != id {
            assert forall|k: int| 0 <= k < i - 1 && k < rest.len() implies (#[trigger] rest[k]).0
                != id by {
                assert(accounts[k + 1].0 != id);
            }
        }
    }
}

/// The selector shows the name of the account that the message is sent from, and
/// asks for one where there is none or it is not known.
pub proof fn law_the_selector_names_the_account(w: WindowModel, i: int)
    ensures
        w.state.account_id is None ==> w.from_label() == "(choose an account)"@,
        w.state.account_id is Some && (forall|k: int|
            0 <= k < w.accounts.len() ==> Some((#[trigger] w.accounts[k]).0) != w.state.account_id)
            ==> w.from_label() == "(choose an account)"@,
        0 <= i < w.accounts.len() && Some(w.accounts[i].0) == w.state.account_id && (forall|k: int|
            0 <= k < i ==> Some((#[trigger] w.accounts[k]).0) != w.state.account_id)
            ==> w.from_label() == w.accounts[i].1,
{
    if let Some(id) = w.state.account_id {
        lemma_label(w.accounts, id, i);
        if forall|k: int| 0 <= k < i ==> Some((#[trigger] w.accounts[k]).0) != w.state.account_id {
            assert forall|k: int| 0 <= k < i implies (#[trigger] w.accounts[k]).0 != id by {}
        }
        if forall|k: int|
            0 <= k < w.accounts.len() ==> Some((#[trigger] w.accounts[k]).0) != w.state.account_id {
            assert forall|k: int| 0 <= k < w.accounts.len() implies (#[trigger] w.accounts[k]).0
                != id by {}
        }
    }
}

/// A window is titled by the subject of its message.
pub proof fn law_a_window_is_titled_by_its_subject(w: WindowModel)
    ensures
        text::trim(w.state.subject).len() > 0 ==> w.title() == text::trim(w.state.subject)
            + " — esMail"@,
        text::trim(w.state.subject).len() == 0 ==> w.title() == "New message — esMail"@,
{
}

/// Each file is shown under its own name, with its own size.
pub proof fn law_each_file_is_shown_with_its_size(w: WindowModel, i: int)
    requires
        0 <= i < w.state.attachments.len(),
    ensures
        w.file_text(i) == w.state.attachments[i].0 + " ("@ + files::size_text(
            w.state.attachments[i].1.len(),
        ) + ")"@,
{
}

/// The buttons do what they say: Send sends unless a message is on its way or the
/// question is on show; Discard ends the message, or asks while it is on its way;
/// the question is answered by its own two buttons. No button touches the message.
pub proof fn law_each_button_does_its_own_work(w: WindowModel)
    ensures
        w.press_sends(Press::Send) == (!w.sending && !w.confirm_discard),
        !w.press_sends(Press::Discard) && !w.press_sends(Press::ConfirmDiscard) && !w.press_sends(
            Press::KeepEditing,
        ),
        w.pressed(Press::Send) == w,
        !w.confirm_discard && !w.sending ==> w.pressed(Press::Discard) == (WindowModel {
            finished: true,
            ..w
        }),
        !w.confirm_discard && w.sending ==> w.pressed(Press::Discard) == (WindowModel {
            confirm_discard: true,
            ..w
        }),
        w.confirm_discard ==> w.pressed(Press::Discard) == w && w.pressed(Press::ConfirmDiscard) == (
        WindowModel { finished: true, ..w }) && w.pressed(Press::KeepEditing) == (WindowModel {
            confirm_discard: false,
            ..w
        }),
        !w.confirm_discard ==> w.pressed(Press::ConfirmDiscard) == w && w.pressed(Press::KeepEditing)
            == w,
{
}

/// The bar offers to send while nothing is on its way and the question is not on
/// show, and then says what went wrong last.
pub proof fn law_the_bar_shows_what_can_be_done(w: WindowModel)
    ensures
        !w.confirm_discard && !w.sending ==> w.action_bar() == (ActionBarModel::Buttons {
            send_enabled: true,
            spinner: false,
            error: w.error,
        }),
        !w.confirm_discard && w.sending ==> w.action_bar() == (ActionBarModel::Buttons {
            send_enabled: false,
            spinner: true,
            error: None,
        }),
        w.confirm_discard ==> w.action_bar() is Confirm,
        w.confirm_discard && !w.sending ==> w.action_bar() == ActionBarModel::Confirm(
            "Discard this unsent message?"@,
        ),
{
}

/// Asking for a send leaves the request and clears the last error; the message and
/// everything else stay.
pub proof fn law_a_send_is_asked_for(w: WindowModel, close_requested: bool, ctrl_enter: bool)
    ensures
        w.frame_ended(true) == (WindowModel { send_requested: true, error: None, ..w }),
        w.frame_ended(false) == w,
        w.shortcut_sends(ctrl_enter) == (ctrl_enter && !w.sending && !w.confirm_discard),
        w.after_close_request(false) == w,
        ({
            let lossy = w.state != w.initial || w.sending;
            &&& w.close_is_cancelled(close_requested) == (close_requested && lossy && !w.finished)
            &&& lossy && !w.finished ==> w.after_close_request(true) == (WindowModel {
                confirm_discard: true,
                ..w
            })
            &&& !lossy || w.finished ==> w.after_close_request(true) == (WindowModel {
                finished: true,
                ..w
            })
        }),
{
}

/// A request to send is picked up once, with the message as the window holds it;
/// the window keeps the message.
pub proof fn law_a_request_is_picked_up_once(w: WindowModel)
    ensures
        w.send_requested ==> w.request() == Some(w.state),
        !w.send_requested ==> w.request() is None,
        w.request_taken() == (WindowModel { send_requested: false, ..w }),
        w.request_taken().request() is None,
        w.done() == (WindowModel { finished: true, ..w }),
{
}

/// Locking, unlocking, an error and a draft's number change what they say and leave
/// what was written alone.
pub proof fn law_outcomes_leave_the_message_alone(w: WindowModel, error: Text, draft: i64)
    ensures
        w.with_sending(true) == (WindowModel { sending: true, error: None, ..w }),
        w.with_sending(false) == (WindowModel { sending: false, ..w }),
        w.with_error(error) == (WindowModel { sending: false, error: Some(error), ..w }),
        w.with_draft(draft).state == (ComposeModel { draft_id: Some(draft), ..w.state }),
        w.with_draft(draft) == (WindowModel {
            state: w.with_draft(draft).state,
            initial: w.with_draft(draft).initial,
            ..w
        }),
{
}

/// The caret goes once to the field the window opened for, and to no other.
pub proof fn law_the_caret_goes_there_once(id: ComposeId, state: ComposeModel, field: Focus)
    ensures
        ({
            let w = WindowModel::opened(id, state, field);
            &&& w.focus == Some(field)
            &&& w.focus_asked(field) == (WindowModel { focus: None, ..w })
            &&& field != Focus::To ==> w.focus_asked(Focus::To) == w
            &&& field != Focus::Body ==> w.focus_asked(Focus::Body) == w
            &&& w.focus_asked(field).focus_asked(Focus::To) == w.focus_asked(field)
            &&& w.focus_asked(field).focus_asked(Focus::Body) == w.focus_asked(field)
        }),
{
}

/// A window opens on the message it is given, with nothing said, asked or sent.
pub proof fn law_a_window_opens_quietly(id: ComposeId, state: ComposeModel, field: Focus)
    ensures
        ({
            let w = WindowModel::opened(id, state, field);
            &&& w.id == id
            &&& w.state == state
            &&& w.initial == state
            &&& w.accounts.len() == 0
            &&& w.error is None
            &&& !w.sending && !w.send_requested && !w.finished && !w.confirm_discard
        }),
{
}

// ── Writing ─────────────────────────────────────────────────────────────────

/// Whether exactly one window was added, on the given message and with the caret
/// in the given field, and nothing else changed.
pub open spec fn opens(s: AppModel, t: AppModel, message: ComposeModel, field: Focus) -> bool {
    &&& t.compose_windows.len() == s.compose_windows.len() + 1
    &&& t.compose_windows.drop_last() == s.compose_windows
    &&& t.compose_windows.last().state == message
    &&& t.compose_windows.last().initial == message
    &&& t.compose_windows.last().focus == Some(field)
    &&& t == (AppModel {
        compose_windows: t.compose_windows,
        next_compose_id: t.next_compose_id,
        ..s
    })
}

/// A new message is empty and goes out from the account on screen; the caret waits
/// for the recipient.
pub proof fn law_a_new_message_is_written_from_here(s: AppModel)
    ensures
        exists|message: ComposeModel|
            {
                &&& #[trigger] opens(s, s.new_message(), message, Focus::To)
                &&& message.account_id == s.active
                &&& message.to.len() == 0 && message.cc.len() == 0 && message.bcc.len() == 0
                &&& message.subject.len() == 0 && message.body.len() == 0
                &&& message.attachments.len() == 0
                &&& message.in_reply_to is None && message.references is None
                &&& message.draft_id is None
            },
{
    let t = s.new_message();
    let message = t.compose_windows.last().state;
    assert(t.compose_windows.drop_last() =~= s.compose_windows);
    assert(opens(s, t, message, Focus::To));
}

/// A reply goes out from the account on screen to the sender of the message and
/// quotes the text on screen; the caret waits above the quotation.
pub proof fn law_a_reply_is_written_from_here(s: AppModel, header: MailHeaderModel, cc: Text)
    ensures
        exists|message: ComposeModel|
            {
                &&& #[trigger] opens(s, s.replying(header, cc), message, Focus::Body)
                &&& message.account_id == s.active
                &&& message.to == header.from
                &&& message.cc == cc
                &&& message.bcc.len() == 0
                &&& message.subject == header.subject || message.subject == "Re: "@ + header.subject
                &&& message.body == compose::quotation(
                    header,
                    compose::read_text(s.current_message_html),
                )
                &&& header.message_id.len() > 0 ==> message.in_reply_to == Some(header.message_id)
                &&& message.attachments.len() == 0
                &&& message.draft_id is None
            },
{
    let t = s.replying(header, cc);
    let message = t.compose_windows.last().state;
    compose::law_a_reply_answers_its_message(
        header,
        compose::read_text(s.current_message_html),
        cc,
    );
    assert(t.compose_windows.drop_last() =~= s.compose_windows);
    assert(opens(s, t, message, Focus::Body));
}

/// A forward goes out from the account on screen, to nobody yet, and quotes the
/// text on screen as a reply would; the caret waits for the recipient.
pub proof fn law_a_forward_is_written_from_here(s: AppModel, header: MailHeaderModel, cc: Text)
    ensures
        exists|message: ComposeModel|
            {
                &&& #[trigger] opens(s, s.forwarding(header), message, Focus::To)
                &&& message.account_id == s.active
                &&& message.to.len() == 0 && message.cc.len() == 0 && message.bcc.len() == 0
                &&& message.subject == header.subject || message.subject == "Fwd: "@ + header.subject
                &&& message.body == s.replying(header, cc).compose_windows.last().state.body
                &&& message.in_reply_to is None && message.references is None
                &&& message.attachments.len() == 0
                &&& message.draft_id is None
            },
{
    let t = s.forwarding(header);
    let message = t.compose_windows.last().state;
    compose::law_a_forward_is_addressed_to_nobody(
        header,
        compose::read_text(s.current_message_html),
    );
    assert(t.compose_windows.drop_last() =~= s.compose_windows);
    assert(opens(s, t, message, Focus::To));
}

// ── Selecting ───────────────────────────────────────────────────────────────

/// A plain click selects nothing and starts a range at the message; neither does
/// it change anything else.
pub proof fn law_a_plain_click_selects_one(s: AppModel, i: int)
    requires
        0 <= i < s.shown_list().len(),
    ensures
        s.clicked(i, false, false) == (AppModel {
            selected_uids: Set::empty(),
            select_anchor: Some(s.shown_list()[i].uid),
            ..s
        }),
        s.search_results is Some && s.search_all_accounts ==> s.clicked(i, true, true) == s.clicked(
            i,
            false,
            false,
        ),
{
}

/// A click with Ctrl adds the message to the selection or takes it out, and leaves
/// every other message as it was. The open message is part of a selection that
/// such a click begins.
pub proof fn law_ctrl_adds_or_takes_out_one(s: AppModel, i: int, uid: u32)
    requires
        0 <= i < s.shown_list().len(),
        !(s.search_results is Some && s.search_all_accounts),
    ensures
        ({
            let t = s.clicked(i, false, true);
            let clicked = s.shown_list()[i].uid;
            let was = |u: u32|
                s.selected_uids.contains(u) || (s.selected_uids.is_empty() && s.selected_uid == Some(u));
            &&& t.selected_uids.contains(clicked) == !was(clicked)
            &&& uid != clicked ==> t.selected_uids.contains(uid) == was(uid)
            &&& s.selected_uids.is_empty() ==> t.select_anchor == Some(clicked)
            &&& !s.selected_uids.is_empty() ==> t.select_anchor == s.select_anchor
            &&& t == (AppModel {
                selected_uids: t.selected_uids,
                select_anchor: t.select_anchor,
                ..s
            })
        }),
{
    if s.selected_uids.is_empty() {
        assert(!s.selected_uids.contains(uid));
        assert(!s.selected_uids.contains(s.shown_list()[i].uid));
    }
}

/// A click with Shift selects the messages from where the range starts to the one
/// clicked, both included, and no others.
pub proof fn law_shift_selects_a_range(s: AppModel, a: int, i: int, uid: u32)
    requires
        0 <= i < s.shown_list().len(),
        0 <= a < s.shown_list().len(),
        !(s.search_results is Some && s.search_all_accounts),
        s.select_anchor == Some(s.shown_list()[a].uid),
        forall|j: int, k: int|
            0 <= j < k < s.shown_list().len() ==> (#[trigger] s.shown_list()[j]).uid != (
            #[trigger] s.shown_list()[k]).uid,
    ensures
        ({
            let t = s.clicked(i, true, false);
            let lo = if a <= i { a } else { i };
            let hi = if a <= i { i } else { a };
            &&& t == (AppModel { selected_uids: t.selected_uids, ..s })
            &&& t.selected_uids.contains(uid) <==> exists|k: int|
                lo <= k <= hi && (#[trigger] s.shown_list()[k]).uid == uid
        }),
{
    let list = s.shown_list();
    selection::lemma_uid_index(list, list[a].uid);
    selection::lemma_uid_index(list, list[i].uid);
    assert(selection::uid_index(list, list[a].uid) == a);
    assert(selection::uid_index(list, list[i].uid) == i);
    let lo = if a <= i { a } else { i };
    let hi = if a <= i { i } else { a };
    let t = s.clicked(i, true, false);
    let between = list.subrange(lo, hi + 1).map_values(|h: MailHeaderModel| h.uid);
    assert(t.selected_uids == between.to_set());
    if t.selected_uids.contains(uid) {
        assert(between.contains(uid));
        let j = choose|j: int| 0 <= j < between.len() && between[j] == uid;
        assert(list[lo + j].uid == uid);
    }
    if exists|k: int| lo <= k <= hi && (#[trigger] s.shown_list()[k]).uid == uid {
        let k = choose|k: int| lo <= k <= hi && (#[trigger] s.shown_list()[k]).uid == uid;
        assert(between[k - lo] == uid);
        assert(between.contains(uid));
    }
}

/// A row is marked exactly if its message is the open one or one of those selected;
/// a search result only if it lives where those live.
pub proof fn law_marked_rows_are_the_selected_ones(s: AppModel, i: int)
    requires
        0 <= i < s.shown_list().len(),
    ensures
        ({
            let uid = s.shown_list()[i].uid;
            let meant = s.selected_uids.contains(uid) || s.selected_uid == Some(uid);
            &&& s.search_results is None ==> s.is_selected(i) == meant
            &&& s.search_results is Some ==> s.is_selected(i) == (meant && s.active is Some && i
                < s.search_origins.len() && s.search_origins[i].0 == s.active->0
                && s.search_origins[i].1 == s.selected_mailbox)
        }),
{
    if s.search_results is Some && s.active is Some && i < s.search_origins.len() {
        let o = s.search_origins[i];
        assert(o == (o.0, o.1));
    }
}

// ── Images ──────────────────────────────────────────────────────────────────

/// Allowing or blocking images does so and reloads the page; trusting a sender does
/// so for the sender of the message on screen, remembers it and shows or blocks the
/// images. Without a sender nothing happens.
pub proof fn law_images_follow_the_choice(s: AppModel, allow: bool, sender: Text)
    ensures
        s.images_allowed(allow) == (AppModel {
            allow_remote: allow,
            effects: s.effects + seq![EffectModel::ReloadPage],
            ..s
        }),
        s.current_sender == Some(sender) ==> s.sender_trusted(allow) == (AppModel {
            allow_remote: allow,
            effects: s.effects + seq![
                EffectModel::TrustSender { address: sender, trusted: allow },
                EffectModel::ReloadPage,
            ],
            ..s
        }),
        s.current_sender is None ==> s.sender_trusted(allow) == s,
{
    assert(s.images_allowed(allow).effects =~= s.effects + seq![EffectModel::ReloadPage]);
    if s.current_sender == Some(sender) {
        assert(s.sender_trusted(allow).effects =~= s.effects + seq![
            EffectModel::TrustSender { address: sender, trusted: allow },
            EffectModel::ReloadPage,
        ]);
    }
}

/// The bar offers to show images while they are blocked, and to stop trusting a
/// sender who is trusted.
pub proof fn law_the_image_bar_offers_what_can_be_done(s: AppModel, sender: Text)
    ensures
        !s.allow_remote ==> s.image_bar(true) == (ImageBarModel::Blocked { sender: s.current_sender })
            && s.image_bar(false) == (ImageBarModel::Blocked { sender: s.current_sender }),
        s.allow_remote ==> s.image_bar(false) == ImageBarModel::Hidden,
        s.allow_remote && s.current_sender is None ==> s.image_bar(true) == ImageBarModel::Hidden,
        s.allow_remote && s.current_sender == Some(sender) ==> s.image_bar(true) == (
        ImageBarModel::Trusted { sender }),
{
}

// ── The main window ─────────────────────────────────────────────────────────

/// Whether nothing changed but that these commands went to the window.
pub open spec fn commands(s: AppModel, t: AppModel, sent: Seq<WindowCommand>) -> bool {
    &&& t.effects.len() == s.effects.len() + sent.len()
    &&& t.effects.take(s.effects.len() as int) == s.effects
    &&& forall|i: int|
        0 <= i < sent.len() ==> #[trigger] t.effects[s.effects.len() + i] == EffectModel::Window(
            sent[i],
        )
}

/// A second start shows the window, and a request to quit closes it.
pub proof fn law_requests_show_or_close_the_window(s: AppModel)
    ensures
        ({
            let t = s.on_request(Request::Show);
            &&& commands(
                s,
                t,
                seq![WindowCommand::Show, WindowCommand::Unminimize, WindowCommand::Focus],
            )
            &&& t == (AppModel { effects: t.effects, ..s })
        }),
        ({
            let t = s.on_request(Request::Quit);
            &&& commands(s, t, seq![WindowCommand::Close])
            &&& t == (AppModel { effects: t.effects, exit_requested: true, ..s })
        }),
{
    let t = s.on_request(Request::Show);
    assert(t.effects.take(s.effects.len() as int) =~= s.effects);
    let u = s.on_request(Request::Quit);
    assert(u.effects.take(s.effects.len() as int) =~= s.effects);
}

/// The tray icon shows the window, and its Quit closes it at once or asks where
/// something is unsent.
pub proof fn law_the_tray_shows_or_quits(s: AppModel)
    ensures
        ({
            let t = s.on_tray(TrayAction::Show);
            &&& commands(s, t, seq![WindowCommand::Show, WindowCommand::Focus])
            &&& t == (AppModel { effects: t.effects, ..s })
        }),
        ({
            let t = s.on_tray(TrayAction::Quit);
            let unsent = exists|i: int|
                0 <= i < s.compose_windows.len() && ((#[trigger] s.compose_windows[i]).state
                    != s.compose_windows[i].initial || s.compose_windows[i].sending);
            if unsent {
                &&& commands(
                    s,
                    t,
                    seq![WindowCommand::Show, WindowCommand::Unminimize, WindowCommand::Focus],
                )
                &&& t == (AppModel { effects: t.effects, confirm_quit: true, ..s })
            } else {
                &&& commands(s, t, seq![WindowCommand::Close])
                &&& t == (AppModel { effects: t.effects, exit_requested: true, ..s })
            }
        }),
{
    let t = s.on_tray(TrayAction::Show);
    assert(t.effects.take(s.effects.len() as int) =~= s.effects);
    let u = s.on_tray(TrayAction::Quit);
    assert(u.effects.take(s.effects.len() as int) =~= s.effects);
    assert(s.has_unsent() == exists|i: int|
        0 <= i < s.compose_windows.len() && ((#[trigger] s.compose_windows[i]).state
            != s.compose_windows[i].initial || s.compose_windows[i].sending));
}

/// The answer to the question whether to quit is taken: yes closes the window, no
/// leaves everything as it was, and the question goes away either way. It also goes
/// away once nothing is unsent.
pub proof fn law_the_question_is_answered(s: AppModel)
    ensures
        s.quit_answered(false) == (AppModel { confirm_quit: false, ..s }),
        s.quit_answered(true) == (AppModel {
            confirm_quit: false,
            exit_requested: true,
            effects: s.effects.push(EffectModel::Window(WindowCommand::Close)),
            ..s
        }),
        s.has_unsent() ==> s.quit_question() == s,
        !s.has_unsent() ==> s.quit_question() == (AppModel { confirm_quit: false, ..s }),
{
}

/// The window's place is saved exactly when the program ends: on a request, or when
/// the window closes without a tray icon and nothing is unsent.
pub proof fn law_the_place_is_saved_at_the_end(s: AppModel)
    ensures
        ({
            let ends = s.exit_requested || (!s.has_tray && !s.has_unsent());
            &&& ends && !s.geometry_saved_on_close ==> s.on_closing() == (AppModel {
                geometry_saved_on_close: true,
                effects: s.effects.push(EffectModel::SaveGeometry),
                ..s
            })
            &&& !ends || s.geometry_saved_on_close ==> s.on_closing() == s
        }),
        s.shows_mail() == (s.accounts.len() > 0 && !s.adding_account),
        s.exit_requested ==> s.on_close_without_tray() == s && s.on_close_with_tray() == s,
        s.has_tray ==> s.on_close_without_tray() == s,
        !s.has_tray ==> s.on_close_with_tray() == s,
        !s.has_unsent() ==> s.on_close_without_tray() == s,
{
}

/// A click on a notice of new mail shows the account it is about, in the mailbox
/// that is watched there, and leaves the form; a notice about an account that is
/// gone does nothing.
pub proof fn law_a_notice_leads_to_its_account(s: AppModel, account: Text, mailbox: Text)
    ensures
        s.has_account(account) ==> {
            let t = s.on_toast(account, Some(mailbox));
            &&& t.active == Some(account)
            &&& t.selected_mailbox == mailbox
            &&& !t.adding_account
        },
        s.has_account(account) ==> {
            let t = s.on_toast(account, None);
            &&& t.active == Some(account)
            &&& t.selected_mailbox == "INBOX"@
            &&& !t.adding_account
        },
        !s.has_account(account) ==> s.on_toast(account, Some(mailbox)) == s && s.on_toast(account, None)
            == s,
{
    reveal(AppModel::activated);
    reveal(AppModel::nothing_shown);
}

/// Downloading asks the account on screen for the open mailbox, writing on a draft
/// asks the store for it, and the form is shown or left as asked.
pub proof fn law_each_wish_is_passed_on(s: AppModel, account: Text, id: i64, adding: bool)
    ensures
        s.active == Some(account) && s.has_account(account) ==> s.download_wanted() == (AppModel {
            effects: s.effects.push(
                EffectModel::Imap {
                    account,
                    cmd: ImapCommandModel::BulkDownload { mailbox: s.selected_mailbox },
                },
            ),
            ..s
        }),
        s.active is None ==> s.download_wanted() == s,
        s.draft_wanted(id) == (AppModel {
            effects: s.effects.push(EffectModel::Queue(QueueCommandModel::LoadDraft { id })),
            ..s
        }),
        s.with_form(adding) == (AppModel { adding_account: adding, ..s }),
{
}

// ── Labels ──────────────────────────────────────────────────────────────────

/// A message in a list is told by its subject and its recipient, each as it is, or
/// by a remark that it has none.
pub proof fn law_a_listed_message_is_told_by_subject_and_recipient(to: Text, subject: Text)
    ensures
        to.len() > 0 && subject.len() > 0 ==> app_windows::listed_text(to, subject) == subject + " — "@
            + to,
        to.len() == 0 && subject.len() > 0 ==> app_windows::listed_text(to, subject) == subject
            + " — "@ + "(no recipient)"@,
        to.len() > 0 && subject.len() == 0 ==> app_windows::listed_text(to, subject)
            == "(no subject)"@ + " — "@ + to,
        to.len() == 0 && subject.len() == 0 ==> app_windows::listed_text(to, subject)
            == "(no subject)"@ + " — "@ + "(no recipient)"@,
{
}

/// A waiting message says how often it was tried and why it failed last; one that
/// was never tried says nothing.
pub proof fn law_a_waiting_message_says_how_often_it_was_tried(attempts: u32, error: Text)
    ensures
        app_windows::retry_text(0, Some(error)) is None,
        app_windows::retry_text(0, None) is None,
        attempts > 0 ==> app_windows::retry_text(attempts, Some(error)) == Some(
            "retried "@ + text::decimal(attempts as nat) + " time(s)"@ + ": "@ + error,
        ),
        attempts > 0 ==> app_windows::retry_text(attempts, None) == Some(
            "retried "@ + text::decimal(attempts as nat) + " time(s)"@,
        ),
{
}

/// A message is read out with whether it is unread and starred, who sent it, its
/// subject and its date.
pub proof fn law_a_message_is_read_out(sender: Text, h: MailHeaderModel)
    requires
        sender.len() > 0,
        h.subject.len() > 0,
    ensures
        ({
            let told = sender + ": "@ + h.subject + ". "@ + h.date;
            &&& h.is_seen() && !h.is_flagged() ==> app_windows::spoken_text(sender, h) == told
            &&& h.is_seen() && h.is_flagged() ==> app_windows::spoken_text(sender, h) == "Starred. "@
                + told
            &&& !h.is_seen() && !h.is_flagged() ==> app_windows::spoken_text(sender, h) == "Unread. "@
                + told
            &&& !h.is_seen() && h.is_flagged() ==> app_windows::spoken_text(sender, h)
                == "Unread, starred. "@ + told
        }),
{
    let told = sender + ": "@ + h.subject + ". "@ + h.date;
    let none: Text = seq![];
    assert(app_windows::spoken_text(sender, h) =~= (if h.is_seen() {
        if h.is_flagged() {
            "Starred. "@
        } else {
            none
        }
    } else if h.is_flagged() {
        "Unread, starred. "@
    } else {
        "Unread. "@
    }) + told);
    assert(none + told =~= told);
}

/// An attachment is shown with its name, its kind and its size.
pub proof fn law_an_attachment_is_shown_as_it_is(a: AttachmentModel)
    ensures
        app_windows::attachment_text(a) == a.filename + " — "@ + a.mime_type + ", "@ + files::size_text(
            a.data.len(),
        ),
{
}

/// The list is titled by the open mailbox, or as results; a result found in all
/// accounts says where it lives; logging out names the account on screen.
pub proof fn law_the_list_says_what_it_shows(s: AppModel, i: int, account: Text)
    ensures
        s.search_results is None ==> s.list_title() == s.selected_mailbox,
        s.search_results is Some ==> s.list_title() == "Search Results"@,
        s.search_results is Some && s.search_all_accounts && 0 <= i < s.search_origins.len()
            ==> s.origin_text(i) == Some(
            s.label(s.search_origins[i].0) + " · "@ + s.search_origins[i].1,
        ),
        s.search_results is None || !s.search_all_accounts ==> s.origin_text(i) is None,
        s.active == Some(account) ==> s.logout_text() == "Logout "@ + s.label(account),
        s.active is None ==> s.logout_text() == "Logout"@,
        s.has_account(account) ==> s.label(account) == s.account(account).label,
        !s.has_account(account) ==> s.label(account) == account,
{
}

// ── Accounts ────────────────────────────────────────────────────────────────

/// Every compose window offers all accounts, each under its own label, in their
/// order; nothing else about it changes.
pub proof fn law_windows_offer_all_accounts(s: AppModel, i: int, k: int)
    requires
        0 <= i < s.compose_windows.len(),
        0 <= k < s.accounts.len(),
    ensures
        ({
            let t = s.composes_shown();
            &&& t == (AppModel { compose_windows: t.compose_windows, ..s })
            &&& t.compose_windows.len() == s.compose_windows.len()
            &&& t.compose_windows[i] == (WindowModel {
                accounts: t.compose_windows[i].accounts,
                ..s.compose_windows[i]
            })
            &&& t.compose_windows[i].accounts.len() == s.accounts.len()
            &&& t.compose_windows[i].accounts[k].0 == s.accounts[k].id
            &&& t.compose_windows[i].accounts[k].1 == s.accounts[k].label
        }),
{
}

/// The accounts that are left after a logout keep their order.
pub proof fn law_a_logout_keeps_the_order(a: Seq<AccountModel>, b: Seq<AccountModel>, one: AccountModel, id: Text)
    ensures
        app::without_account(a + b, id) == app::without_account(a, id) + app::without_account(b, id),
        one.id == id ==> app::without_account(seq![one], id) == Seq::<AccountModel>::empty(),
        one.id != id ==> app::without_account(seq![one], id) == seq![one],
    decreases b.len(),
{
    let none = Seq::<AccountModel>::empty();
    let single = seq![one];
    assert(single.drop_last() =~= none);
    assert(single.last() == one);
    assert(app::without_account(none, id) =~= none);
    assert(app::without_account(single, id) =~= if one.id == id {
        none
    } else {
        single
    });
    if b.len() == 0 {
        assert(a + b =~= a);
        assert(app::without_account(a, id) + app::without_account(b, id) =~= app::without_account(a, id));
    } else {
        law_a_logout_keeps_the_order(a, b.drop_last(), one, id);
        assert((a + b).drop_last() =~= a + b.drop_last());
        assert((a + b).last() == b.last());
        assert(app::without_account(a + b, id) =~= app::without_account(a, id) + app::without_account(
            b,
            id,
        ));
    }
}

/// Whether `next` is where the first connected account stands; past the end where
/// none is connected.
pub open spec fn first_connected(accounts: Seq<AccountModel>, next: int) -> bool {
    &&& 0 <= next <= accounts.len()
    &&& forall|k: int| 0 <= k < next ==> (#[trigger] accounts[k]).state != ConnStateModel::Connected
    &&& next < accounts.len() ==> accounts[next].state == ConnStateModel::Connected
}

proof fn lemma_first_connected(accounts: Seq<AccountModel>, next: int)
    requires
        first_connected(accounts, next),
    ensures
        app::connected_index(accounts) == (if next < accounts.len() {
            next
        } else {
            -1
        }),
    decreases accounts.len(),
{
    if accounts.len() > 0 {
        let few = accounts.drop_last();
        let n = if next <= few.len() {
            next
        } else {
            few.len() as int
        };
        assert forall|k: int| 0 <= k < n implies (#[trigger] few[k]).state
            != ConnStateModel::Connected by {
            assert(few[k] == accounts[k]);
        }
        if n < few.len() {
            assert(few[n] == accounts[n]);
        }
        lemma_first_connected(few, n);
        if next == accounts.len() {
            assert(accounts[accounts.len() - 1].state != ConnStateModel::Connected);
        }
    }
}

/// Logging out of the account on screen clears the screen and shows the inbox of
/// the first account that is still connected, if there is one; of another account,
/// it leaves the screen alone. What was logged out of is said by its label.
pub proof fn law_logging_out_shows_another_account(s: AppModel, account: Text, next: int)
    requires
        first_connected(app::without_account(s.accounts, account), next),
    ensures
        ({
            let left = app::without_account(s.accounts, account);
            let t = s.dropped(account);
            let said = "Logged out of "@ + s.label(account);
            let base = AppModel {
                accounts: left,
                search_all_accounts: s.search_all_accounts && left.len() >= 2,
                ..s
            };
            let cleared = AppModel {
                active: None,
                headers: seq![],
                search_results: None,
                search_origins: seq![],
                headers_stale: false,
                selected_uid: None,
                selected_uids: Set::empty(),
                select_anchor: None,
                pending_mark_seen: None,
                current_sender: None,
                current_message_html: seq![],
                current_attachments: seq![],
                effects: s.effects.push(EffectModel::ShowPage(seq![])),
                ..base
            };
            &&& s.active != Some(account) ==> t == (AppModel { status: said, ..base })
            &&& s.active == Some(account) && next == left.len() ==> t == (AppModel {
                status: said,
                ..cleared
            })
            &&& s.active == Some(account) && next < left.len() ==> t == (AppModel {
                status: said,
                ..cleared.activated(left[next].id, "INBOX"@)
            })
        }),
{
    reveal(AppModel::nothing_shown);
    lemma_first_connected(app::without_account(s.accounts, account), next);
}

/// Every event can be taken as long as no count of unread messages is at the limit
/// of its type.
pub proof fn law_events_fit_unless_a_count_is_full(s: AppModel, account: Text, event: ImapEventModel)
    requires
        forall|a: Text, mailbox: Text|
            #[trigger] s.count(a, mailbox) matches Some(n) ==> n < u32::MAX,
    ensures
        s.event_fits(account, event),
{
}

/// A turn of saving drafts goes through the windows one by one, in their order, and
/// leaves none out.
pub proof fn law_every_window_has_its_turn_to_save(s: AppModel, windows: Seq<WindowModel>, w: WindowModel, now: u64)
    ensures
        s.all_autosaved(windows.push(w), now) == s.all_autosaved(windows, now).autosaved(w, now),
        s.all_autosaved(seq![], now) == s,
{
    assert(windows.push(w).drop_last() =~= windows);
}

} // verus!
