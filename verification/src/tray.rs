//! The tray icon and the notices of new mail: what is shown, and what the
//! clicks mean.

use vstd::prelude::*;
use vstd::string::*;
use crate::text;
use crate::text::Text;

verus! {

broadcast use vstd::string::group_string_axioms;

// ── The icon and its menu ───────────────────────────────────────────────────

/// What the user asked for with the tray icon or its menu.
#[derive(Debug, Clone, Copy, PartialEq, Eq, Structural)]
pub enum TrayAction {
    /// Bring the main window back.
    Show,
    /// Exit, as opposed to closing the window, which only hides it.
    Quit,
}

/// Something that happened to the tray icon.
#[derive(Debug, Clone, Copy, PartialEq, Eq, Structural)]
pub enum IconEvent {
    /// A mouse button went down or up on it.
    Click { left: bool, up: bool },
    Other,
}

/// What is kept about the tray icon.
pub struct TrayState {
    /// The menu entry that shows the window.
    show_id: String,
    /// The menu entry that quits.
    quit_id: String,
    /// The unread messages the icon tells of; `None` before it told of any.
    unread: Option<u32>,
}

/// What a [`TrayState`] holds.
#[verifier::ext_equal]
pub struct TrayModel {
    pub show_id: Text,
    pub quit_id: Text,
    pub unread: Option<u32>,
}

impl View for TrayState {
    type V = TrayModel;

    closed spec fn view(&self) -> TrayModel {
        TrayModel { show_id: self.show_id@, quit_id: self.quit_id@, unread: self.unread }
    }
}

/// What the icon has to say anew once the number of unread messages is `total`.
pub open spec fn news_of(told: Option<u32>, total: u32) -> Option<Text> {
    if told == Some(total) {
        None
    } else {
        Some(tooltip_text(total))
    }
}

/// What the icon says when the mouse is over it.
pub open spec fn tooltip_text(unread: u32) -> Text {
    if unread == 0 {
        "esMail"@
    } else {
        "esMail — "@ + text::decimal(unread as nat) + " unread"@
    }
}

/// What the clicks on the icon ask for. A left click counts when the button
/// goes up, so that it counts once.
pub open spec fn icon_actions(events: Seq<IconEvent>) -> Seq<TrayAction>
    decreases events.len(),
{
    if events.len() == 0 {
        seq![]
    } else {
        let before = icon_actions(events.drop_last());
        if events.last() == (IconEvent::Click { left: true, up: true }) {
            before.push(TrayAction::Show)
        } else {
            before
        }
    }
}

/// What the menu entries chosen ask for.
pub open spec fn menu_actions(tray: TrayModel, chosen: Seq<Text>) -> Seq<TrayAction>
    decreases chosen.len(),
{
    if chosen.len() == 0 {
        seq![]
    } else {
        let before = menu_actions(tray, chosen.drop_last());
        if chosen.last() == tray.show_id {
            before.push(TrayAction::Show)
        } else if chosen.last() == tray.quit_id {
            before.push(TrayAction::Quit)
        } else {
            before
        }
    }
}

impl TrayState {
    /// A tray icon whose menu has these entries.
    pub fn new(show_id: String, quit_id: String) -> (r: Self)
        ensures
            r@ == (TrayModel { show_id: show_id@, quit_id: quit_id@, unread: None }),
    {
        TrayState { show_id, quit_id, unread: None }
    }

    /// Takes the number of unread messages; tells what the icon is to say, if
    /// that changed.
    pub fn set_unread(&mut self, total: u32) -> (r: Option<String>)
        ensures
            final(self)@ == (TrayModel { unread: Some(total), ..old(self)@ }),
            r.deep_view() == news_of(old(self)@.unread, total),
    {
        let same = match self.unread {
            Some(n) => n == total,
            None => false,
        };
        if same {
            return None;
        }
        self.unread = Some(total);
        if total == 0 {
            Some("esMail".to_owned())
        } else {
            let mut r = "esMail — ".to_owned();
            r.append(text::to_decimal(total as u64).as_str());
            r.append(" unread");
            Some(r)
        }
    }

    /// What the clicks on the icon, and then the menu entries chosen, ask for.
    pub fn poll_actions(&self, events: &Vec<IconEvent>, chosen: &Vec<String>) -> (r: Vec<TrayAction>)
        ensures
            r@ == icon_actions(events@) + menu_actions(self@, chosen.deep_view()),
    {
        let mut r: Vec<TrayAction> = Vec::new();
        let mut i: usize = 0;
        assert(events@.take(0) =~= seq![]);
        assert(r@ =~= icon_actions(events@.take(0)));
        while i < events.len()
            invariant
                i <= events@.len(),
                r@ == icon_actions(events@.take(i as int)),
            decreases events@.len() - i,
        {
            assert(events@.take(i + 1).drop_last() =~= events@.take(i as int));
            match events[i] {
                IconEvent::Click { left, up } => {
                    if left && up {
                        r.push(TrayAction::Show);
                    }
                },
                IconEvent::Other => {},
            }
            i += 1;
        }
        assert(events@.take(events@.len() as int) =~= events@);
        let ghost clicks = r@;
        let ghost all = chosen.deep_view();
        let mut i: usize = 0;
        assert(r@ =~= clicks + menu_actions(self@, all.take(0)));
        while i < chosen.len()
            invariant
                i <= chosen@.len(),
                all == chosen.deep_view(),
                r@ == clicks + menu_actions(self@, all.take(i as int)),
            decreases chosen@.len() - i,
        {
            let ghost held = r@;
            assert(all.take(i + 1).drop_last() =~= all.take(i as int));
            assert(all.take(i + 1).last() == chosen@[i as int]@);
            if chosen[i] == self.show_id {
                r.push(TrayAction::Show);
            } else if chosen[i] == self.quit_id {
                r.push(TrayAction::Quit);
            }
            assert(r@ =~= clicks + menu_actions(self@, all.take(i + 1)));
            i += 1;
        }
        assert(all.take(all.len() as int) =~= all);
        r
    }
}

/// The side of the icon, in pixels.
pub const ICON_SIZE: u32 = 16;

/// The channel `i` of the icon's color: an opaque blue.
pub open spec fn icon_channel(i: int) -> u8 {
    if i % 4 == 0 {
        0x2b
    } else if i % 4 == 1 {
        0x6c
    } else if i % 4 == 2 {
        0xb0
    } else {
        0xff
    }
}

/// The icon's pixels, four channels each.
pub fn placeholder_pixels() -> (r: Vec<u8>)
    ensures
        r@ == Seq::new((ICON_SIZE * ICON_SIZE * 4) as nat, |i: int| icon_channel(i)),
{
    let mut r: Vec<u8> = Vec::new();
    let mut i: u32 = 0;
    while i < ICON_SIZE * ICON_SIZE
        invariant
            i <= ICON_SIZE * ICON_SIZE,
            r@.len() == 4 * i,
            forall|j: int| 0 <= j < 4 * i ==> #[trigger] r@[j] == icon_channel(j),
        decreases ICON_SIZE * ICON_SIZE - i,
    {
        r.push(0x2b);
        r.push(0x6c);
        r.push(0xb0);
        r.push(0xff);
        i += 1;
    }
    assert(r@ =~= Seq::new((ICON_SIZE * ICON_SIZE * 4) as nat, |i: int| icon_channel(i)));
    r
}

// ── Notices of new mail ─────────────────────────────────────────────────────

/// How many notices are kept, so that a click on one that is still listed
/// finds its handler.
pub const KEEP_TOASTS: usize = 32;

/// The notices of new mail: what a click does, and the notices shown last.
pub struct Toasts<H, T> {
    /// What a click does, once it is known.
    pub handler: Option<H>,
    /// The notices shown last, oldest first.
    pub shown: Vec<T>,
}

/// The last of a list, at most as many as are kept.
pub open spec fn kept<T>(shown: Seq<T>) -> Seq<T> {
    if shown.len() > KEEP_TOASTS {
        shown.skip(shown.len() - KEEP_TOASTS)
    } else {
        shown
    }
}

/// What a click does once `new` is offered: what was set first stays.
pub open spec fn first_handler<H>(set: Option<H>, new: H) -> Option<H> {
    match set {
        Some(first) => Some(first),
        None => Some(new),
    }
}

/// What is said of a notice that could not be shown.
pub open spec fn notice_failure(error: Text) -> Text {
    "could not show new-mail toast: "@ + error
}

/// The account that a click on a notice means, if anything is set to be done.
pub open spec fn meant(has_handler: bool, account: Option<String>) -> Option<String> {
    if has_handler {
        account
    } else {
        None
    }
}

/// The notices of new mail before any was shown.
pub fn no_toasts<H, T>() -> (r: Toasts<H, T>)
    ensures
        r.handler is None,
        r.shown@ == Seq::<T>::empty(),
{
    Toasts { handler: None, shown: Vec::new() }
}

/// Sets what a click on a notice does. Only the first call has any effect.
pub fn set_toast_click_handler<H, T>(toasts: &mut Toasts<H, T>, handler: H)
    ensures
        final(toasts).handler == first_handler(old(toasts).handler, handler),
        final(toasts).shown@ == old(toasts).shown@,
{
    if toasts.handler.is_none() {
        toasts.handler = Some(handler);
    }
}

/// Takes the outcome of showing a notice: one that was shown is kept, and a
/// failure gives the text for the log.
pub fn show_new_mail_toast<H, T>(toasts: &mut Toasts<H, T>, outcome: Result<T, String>) -> (r: Option<
    String,
>)
    ensures
        final(toasts).handler == old(toasts).handler,
        match outcome {
            Ok(toast) => r is None && final(toasts).shown@ == kept(old(toasts).shown@.push(toast)),
            Err(error) => {
                &&& r.deep_view() == Some(notice_failure(error@))
                &&& final(toasts).shown@ == old(toasts).shown@
            },
        },
{
    match outcome {
        Ok(toast) => {
            let ghost all = toasts.shown@.push(toast);
            toasts.shown.push(toast);
            let ghost mut n: int = 0;
            assert(all.skip(0) =~= all);
            while toasts.shown.len() > KEEP_TOASTS
                invariant
                    0 <= n <= all.len(),
                    toasts.shown@ == all.skip(n),
                    n > 0 ==> all.len() - n >= KEEP_TOASTS,
                    toasts.handler == old(toasts).handler,
                decreases toasts.shown@.len(),
            {
                let _ = toasts.shown.remove(0);
                assert(toasts.shown@ =~= all.skip(n + 1));
                proof {
                    n = n + 1;
                }
            }
            None
        },
        Err(error) => {
            let mut r = "could not show new-mail toast: ".to_owned();
            r.append(error.as_str());
            Some(r)
        },
    }
}

/// The account to open for a click on a notice, if the notice names one and
/// it is known what a click does.
pub fn toast_clicked<H, T>(toasts: &Toasts<H, T>, account: Option<String>) -> (r: Option<String>)
    ensures
        r == meant(toasts.handler is Some, account),
{
    if toasts.handler.is_some() {
        account
    } else {
        None
    }
}

// ── Laws ────────────────────────────────────────────────────────────────────

/// One left click, which is a press and a release, asks for the window once.
pub proof fn law_one_click_shows_once(before: Seq<IconEvent>)
    ensures
        icon_actions(
            before.push(IconEvent::Click { left: true, up: false }).push(
                IconEvent::Click { left: true, up: true },
            ),
        ) == icon_actions(before).push(TrayAction::Show),
{
    let down = before.push(IconEvent::Click { left: true, up: false });
    let up = down.push(IconEvent::Click { left: true, up: true });
    assert(up.drop_last() =~= down);
    assert(down.drop_last() =~= before);
    assert(icon_actions(down) == icon_actions(before));
}

} // verus!
