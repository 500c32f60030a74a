//! What holds between the program and the desktop around it: the reading pane, the
//! tray icon and its notices, the one running copy, and signing in.

use vstd::prelude::*;
use vstd::string::*;
use crate::auth;
use crate::auth::{AuthModel, Login};
use crate::ipc;
use crate::shell;
use crate::shell::{Claim, FirstInstance, Instance};
use crate::text;
use crate::text::Text;
use crate::theme::ThemeMode;
use crate::tray;
use crate::tray::{IconEvent, TrayAction, TrayModel};
use crate::webview;
use crate::webview::{ImageOutcome, Input, Key, Output, RenderJobModel, Scroll, WidgetModel};

verus! {

broadcast use vstd::string::group_string_axioms;

// ── The reading pane ────────────────────────────────────────────────────────

/// What is loaded is what is rendered: the job for a page holds that page, asks for
/// its images anew, and has a number of its own.
pub proof fn law_the_loaded_page_is_rendered(widget: WidgetModel, html: Text)
    requires
        widget.submitted_id < u64::MAX,
    ensures
        ({
            let w = widget.loaded(html);
            &&& w.html == html && w.frame is None && !w.failed && w.dirty
            &&& w.job() == (RenderJobModel {
                id: (widget.submitted_id + 1) as u64,
                html,
                reset_images: true,
            })
            &&& w.submitted().submitted_id == widget.submitted_id + 1
            &&& !w.submitted().dirty && w.submitted().html == html
            &&& w.submitted().frame is None && !w.submitted().is_ready() && !w.submitted().failed
            &&& !w.submitted().submitted().job().reset_images
        }),
        ({
            let w = WidgetModel::of(html);
            &&& w.html == html && w.frame is None && !w.failed && w.dirty
            &&& w.submitted_id == 0 && !w.reset_images
        }),
{
}

/// The answer to the newest job is taken, and the answer to any other changes
/// nothing; a thread that is gone has failed.
pub proof fn law_only_the_newest_job_is_answered(w: WidgetModel, id: u64, outputs: Seq<Output>)
    ensures
        w.answered(Output::Frame { id: w.submitted_id }) == (WidgetModel {
            frame: Some(w.submitted_id),
            ..w
        }),
        w.answered(Output::Failed { id: w.submitted_id }) == (WidgetModel { failed: true, ..w }),
        id != w.submitted_id ==> w.answered(Output::Frame { id }) == w && w.answered(
            Output::Failed { id },
        ) == w,
        w.polled(outputs, true) == (WidgetModel { failed: true, ..w.polled(outputs, false) }),
        w.polled(seq![], false) == w,
        w.polled(outputs.push(Output::Frame { id }), false) == w.polled(outputs, false).answered(
            Output::Frame { id },
        ),
        w.polled(outputs.push(Output::Failed { id }), false) == w.polled(outputs, false).answered(
            Output::Failed { id },
        ),
        w.refused() == (WidgetModel { failed: true, ..w }),
        w.is_ready() <==> w.frame == Some(w.submitted_id),
{
    assert(outputs.push(Output::Frame { id }).drop_last() =~= outputs);
    assert(outputs.push(Output::Failed { id }).drop_last() =~= outputs);
}

/// The wheel scrolls by half a pixel for each unit it turns, against its direction;
/// the keys scroll where they say, and keys that go opposite ways scroll by
/// opposite amounts. Nothing else scrolls.
pub proof fn law_each_input_scrolls_its_way(delta: i32)
    ensures
        webview::scroll_for(Input::Wheel { delta, horizontal: false }) matches Some(
            Scroll::By { pixels, over },
        ) && over == 120 && pixels == -60 * delta,
        webview::scroll_for(Input::Wheel { delta, horizontal: true }) is None,
        webview::scroll_for(Input::KeyDown(Key::Down)) == Some(Scroll::By { pixels: 40, over: 1 }),
        webview::scroll_for(Input::KeyDown(Key::Up)) == Some(Scroll::By { pixels: (-40) as i64, over: 1 }),
        webview::scroll_for(Input::KeyDown(Key::PageDown)) == Some(Scroll::Pages(1)),
        webview::scroll_for(Input::KeyDown(Key::PageUp)) == Some(Scroll::Pages((-1) as i32)),
        webview::scroll_for(Input::KeyDown(Key::Home)) == Some(Scroll::ToTop),
        webview::scroll_for(Input::KeyDown(Key::End)) == Some(Scroll::ToBottom),
        webview::scroll_for(Input::KeyDown(Key::Other)) is None,
        webview::scroll_for(Input::Other) is None,
{
}

/// An image is shown, byte for byte, exactly if images are allowed and it could be
/// fetched.
pub proof fn law_images_are_shown_only_if_allowed(bytes: Vec<u8>)
    ensures
        webview::outcome_of(true, Some(bytes)) == ImageOutcome::Serve(bytes),
        webview::outcome_of(false, Some(bytes)) == ImageOutcome::Block,
        webview::outcome_of(true, None) == ImageOutcome::Block,
        webview::outcome_of(false, None) == ImageOutcome::Block,
{
}

// ── The tray icon ───────────────────────────────────────────────────────────

/// The icon tells the number of unread messages, once each time it changes.
pub proof fn law_the_icon_tells_the_number(told: u32, total: u32)
    requires
        total > 0,
    ensures
        tray::tooltip_text(0) == "esMail"@,
        tray::tooltip_text(total) == "esMail — "@ + text::decimal(total as nat) + " unread"@,
        tray::news_of(Some(total), total) is None,
        told != total ==> tray::news_of(Some(told), total) == Some(tray::tooltip_text(total)),
        tray::news_of(None, total) == Some(tray::tooltip_text(total)),
{
}

/// Every menu entry that was chosen does what it is for, in order: the one shows
/// the window, the other quits, and no other entry does anything.
pub proof fn law_each_entry_does_its_own_work(t: TrayModel, a: Seq<Text>, b: Seq<Text>, other: Text)
    requires
        t.show_id != t.quit_id,
    ensures
        tray::menu_actions(t, a + b) == tray::menu_actions(t, a) + tray::menu_actions(t, b),
        tray::menu_actions(t, seq![t.show_id]) == seq![TrayAction::Show],
        tray::menu_actions(t, seq![t.quit_id]) == seq![TrayAction::Quit],
        other != t.show_id && other != t.quit_id ==> tray::menu_actions(t, seq![other]) == Seq::<
            TrayAction,
        >::empty(),
        tray::menu_actions(t, seq![]) == Seq::<TrayAction>::empty(),
    decreases b.len(),
{
    let none = Seq::<Text>::empty();
    assert(tray::menu_actions(t, none) =~= Seq::<TrayAction>::empty());
    let show = seq![t.show_id];
    let quit = seq![t.quit_id];
    let neither = seq![other];
    assert(show.drop_last() =~= none && quit.drop_last() =~= none && neither.drop_last() =~= none);
    assert(show.last() == t.show_id && quit.last() == t.quit_id && neither.last() == other);
    assert(tray::menu_actions(t, show) =~= seq![TrayAction::Show]);
    assert(tray::menu_actions(t, quit) =~= seq![TrayAction::Quit]);
    if b.len() == 0 {
        assert(a + b =~= a);
        assert(tray::menu_actions(t, a) + tray::menu_actions(t, b) =~= tray::menu_actions(t, a));
    } else {
        law_each_entry_does_its_own_work(t, a, b.drop_last(), other);
        assert((a + b).drop_last() =~= a + b.drop_last());
        assert((a + b).last() == b.last());
        assert(tray::menu_actions(t, a + b) =~= tray::menu_actions(t, a) + tray::menu_actions(t, b));
    }
}

/// Every click on the icon counts, in order: a left button that goes up shows the
/// window, and nothing else does anything.
pub proof fn law_each_click_counts(a: Seq<IconEvent>, b: Seq<IconEvent>, other: IconEvent)
    ensures
        tray::icon_actions(a + b) == tray::icon_actions(a) + tray::icon_actions(b),
        tray::icon_actions(seq![IconEvent::Click { left: true, up: true }]) == seq![TrayAction::Show],
        other != (IconEvent::Click { left: true, up: true }) ==> tray::icon_actions(seq![other])
            == Seq::<TrayAction>::empty(),
    decreases b.len(),
{
    let none = Seq::<IconEvent>::empty();
    assert(tray::icon_actions(none) =~= Seq::<TrayAction>::empty());
    let click = seq![IconEvent::Click { left: true, up: true }];
    let neither = seq![other];
    assert(click.drop_last() =~= none && neither.drop_last() =~= none);
    assert(click.last() == (IconEvent::Click { left: true, up: true }) && neither.last() == other);
    assert(tray::icon_actions(click) =~= seq![TrayAction::Show]);
    if b.len() == 0 {
        assert(a + b =~= a);
        assert(tray::icon_actions(a) + tray::icon_actions(b) =~= tray::icon_actions(a));
    } else {
        law_each_click_counts(a, b.drop_last(), other);
        assert((a + b).drop_last() =~= a + b.drop_last());
        assert((a + b).last() == b.last());
        assert(tray::icon_actions(a + b) =~= tray::icon_actions(a) + tray::icon_actions(b));
    }
}

/// Of the notices that were shown the last thirty-two are kept, in their order.
pub proof fn law_the_last_notices_are_kept(shown: Seq<Text>, i: int)
    ensures
        shown.len() <= 32 ==> tray::kept(shown) == shown,
        shown.len() > 32 ==> tray::kept(shown).len() == 32,
        shown.len() > 32 && 0 <= i < 32 ==> tray::kept(shown)[i] == shown[shown.len() - 32 + i],
{
}

/// What a click does is set once; a click means the account of its notice, once
/// something is set. A notice that could not be shown is said with its reason.
pub proof fn law_a_click_means_its_account(first: Text, later: Text, account: String, error: Text)
    ensures
        tray::first_handler(None, first) == Some(first),
        tray::first_handler(Some(first), later) == Some(first),
        tray::meant(true, Some(account)) == Some(account),
        tray::meant(true, None) is None,
        tray::meant(false, Some(account)) is None,
        tray::notice_failure(error) == "could not show new-mail toast: "@ + error,
{
}

/// Each pixel of the icon is the same opaque blue.
pub proof fn law_each_pixel_is_blue(pixel: int)
    ensures
        tray::icon_channel(4 * pixel) == 0x2b,
        tray::icon_channel(4 * pixel + 1) == 0x6c,
        tray::icon_channel(4 * pixel + 2) == 0xb0,
        tray::icon_channel(4 * pixel + 3) == 0xff,
{
}

// ── One running copy ────────────────────────────────────────────────────────

/// A copy is running already exactly if there is a lock and it was there before;
/// otherwise this is the first, and it listens exactly if there is an event.
pub proof fn law_a_lock_that_existed_means_another_copy(has_event: bool, has_lock: bool, existed: bool)
    ensures
        has_lock && existed ==> shell::instance_of(Some(Claim { has_event, has_lock, existed }))
            == Instance::AlreadyRunning,
        !has_lock || !existed ==> shell::instance_of(Some(Claim { has_event, has_lock, existed }))
            == Instance::First(FirstInstance { show_event: has_event }),
        shell::instance_of(None) == Instance::First(FirstInstance { show_event: false }),
{
}

/// A wide text holds the units of its characters, one for each of the first plane
/// and two for each of the others, from which the character can be read, and then
/// a zero.
pub proof fn law_a_wide_text_holds_its_characters(a: Text, b: Text, c: char)
    ensures
        shell::utf16(a + b) == shell::utf16(a) + shell::utf16(b),
        (c as u32) < 0x10000 ==> shell::units(c).len() == 1 && shell::units(c)[0] as u32 == c as u32,
        c as u32 >= 0x10000 ==> shell::units(c).len() == 2 && 0xd800 <= shell::units(c)[0] < 0xdc00
            && 0xdc00 <= shell::units(c)[1] < 0xe000 && (shell::units(c)[0] - 0xd800) * 0x400 + (
        shell::units(c)[1] - 0xdc00) + 0x10000 == c as u32,
        shell::utf16(seq![c]) == shell::units(c),
        shell::wide_text(a) == shell::utf16(a) + seq![0u16],
    decreases b.len(),
{
    let none = Seq::<char>::empty();
    let one = seq![c];
    assert(one.drop_last() =~= none);
    assert(shell::utf16(none) =~= Seq::<u16>::empty());
    assert(one.last() == c);
    assert(shell::utf16(one) =~= shell::units(c));
    assert(shell::wide_text(a) =~= shell::utf16(a) + seq![0u16]);
    assert(c as u32 <= 0x10ffff);
    if b.len() == 0 {
        assert(a + b =~= a);
        assert(shell::utf16(a) + shell::utf16(b) =~= shell::utf16(a));
    } else {
        law_a_wide_text_holds_its_characters(a, b.drop_last(), c);
        assert((a + b).drop_last() =~= a + b.drop_last());
        assert((a + b).last() == b.last());
        assert(shell::utf16(a + b) =~= shell::utf16(a) + shell::utf16(b));
    }
}

/// Notices carry the program's name, and its picture where there is one.
pub proof fn law_notices_carry_name_and_picture(path: Text)
    ensures
        ({
            let plain = shell::identity_values(None);
            let full = shell::identity_values(Some(path));
            &&& plain.len() == 1 && full.len() == 2
            &&& full[0] == plain[0]
            &&& plain[0].name == shell::wide_text("DisplayName"@)
            &&& plain[0].value == shell::wide_text("esMail"@)
            &&& full[1].name == shell::wide_text("IconUri"@)
            &&& full[1].value == shell::wide_text(path)
        }),
{
}

/// The picture is written exactly if the file does not hold it; a change that the
/// system refused keeps its reason; removing what is not there succeeds.
pub proof fn law_the_systems_answers_are_taken(current: Seq<u8>, wanted: Seq<u8>, code: u32)
    ensures
        shell::differs(None, wanted),
        shell::differs(Some(current), wanted) == (current != wanted),
        shell::stored_result(0) == Ok::<(), u32>(()),
        code != 0 ==> shell::stored_result(code) == Err::<(), u32>(code),
        shell::removed_result(None) == Ok::<(), u32>(()),
        shell::removed_result(Some(0)) == Ok::<(), u32>(()),
        shell::removed_result(Some(2)) == Ok::<(), u32>(()),
        code != 0 && code != 2 ==> shell::removed_result(Some(code)) == Err::<(), u32>(code),
{
}

/// The tray is light only if the system says so; a small icon has the side the
/// system gives, or sixteen pixels.
pub proof fn law_the_systems_looks_are_taken(status: u32, light: u32, px: i32)
    ensures
        shell::is_dark(None),
        shell::is_dark(Some((status, light))) == !(status == 0 && light != 0),
        px > 0 ==> shell::icon_side(Some(px)) == px,
        px <= 0 ==> shell::icon_side(Some(px)) == 16,
        shell::icon_side(None) == 16,
{
}

/// Copies meet below the runtime directory, or below the temporary one where there
/// is none, under the name they agree on.
pub proof fn law_copies_meet_below_the_runtime_directory(base: Text, temp: Text, name: Text)
    requires
        name.len() > 0,
        name[0] != '/',
        base.len() > 0,
    ensures
        base.last() != '/' ==> ipc::socket_directory(Some(base), temp, name) == base + "/"@ + name,
        base.last() == '/' ==> ipc::socket_directory(Some(base), temp, name) == base + name,
        ipc::socket_directory(None, base, name) == ipc::socket_directory(Some(base), temp, name),
        ipc::socket_path(Some(base), temp, name) == ipc::path_below(
            ipc::socket_directory(Some(base), temp, name),
            "ipc.sock"@,
        ),
        ipc::path_below(seq![], name) == name,
        ipc::path_below(base, "/"@ + name) == "/"@ + name,
{
    reveal_strlit("/");
    let slash = "/"@;
    assert(slash =~= seq!['/']);
    if text::starts_with(name, slash) {
        assert(name.subrange(0, 1)[0] == name[0]);
    }
    let n = base.len() - 1;
    if text::ends_with(base, slash) {
        assert(base.subrange(n, n + 1)[0] == base[n]);
    }
    if base.last() == '/' {
        assert(base.subrange(n, n + 1) =~= slash);
    }
    let none = Seq::<char>::empty();
    assert(none + name =~= name);
    let rooted = slash + name;
    assert(rooted.subrange(0, 1) =~= slash);
}

// ── Signing in ──────────────────────────────────────────────────────────────

/// Signing in uses the user's name and the secret of the moment, as a password or
/// as a bearer token, as the account says. Only a password is known without asking.
pub proof fn law_signing_in_uses_name_and_secret(
    stored: Text,
    account: Text,
    user: Text,
    secret: Text,
    username: String,
    password: String,
    login: Login,
)
    ensures
        auth::secret_at_hand(AuthModel::Password(stored)) == Some(stored),
        auth::secret_at_hand(AuthModel::OAuth(account)) is None,
        auth::logs_in(
            AuthModel::Password(stored),
            user,
            secret,
            Login::Password { username, password },
        ) <==> username@ == user && password@ == secret,
        auth::logs_in(AuthModel::Password(stored), user, secret, login) ==> login is Password,
        auth::logs_in(AuthModel::OAuth(account), user, secret, login) <==> (login matches Login::XOAuth2 {
            authenticator,
        } && authenticator@ == Some(
            "user="@ + user + "\x01auth=Bearer "@ + secret + "\x01\x01"@,
        )),
        auth::next_response(Some(secret)) == secret,
        auth::next_response(None).len() == 0,
{
}

// ── Themes ──────────────────────────────────────────────────────────────────

/// Dark is followed by light, light by the system's own, and that by dark; each
/// goes by its name.
pub proof fn law_each_theme_has_its_follower()
    ensures
        ThemeMode::Dark.following() == ThemeMode::Light,
        ThemeMode::Light.following() == ThemeMode::System,
        ThemeMode::System.following() == ThemeMode::Dark,
        ThemeMode::Dark.name() == "Dark"@,
        ThemeMode::Light.name() == "Light"@,
        ThemeMode::System.name() == "System"@,
{
}

} // verus!
