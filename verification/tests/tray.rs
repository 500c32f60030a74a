use esmail::tray::{
    no_toasts, placeholder_pixels, set_toast_click_handler, show_new_mail_toast, toast_clicked, IconEvent, Toasts,
    TrayAction, TrayState,
};

fn tray() -> TrayState {
    TrayState::new("show".to_string(), "quit".to_string())
}

#[test]
fn the_tooltip_tells_of_unread_messages_when_the_number_changes() {
    let mut t = tray();
    assert_eq!(t.set_unread(0).as_deref(), Some("esMail"));
    assert_eq!(t.set_unread(0), None);
    assert_eq!(t.set_unread(3).as_deref(), Some("esMail \u{2014} 3 unread"));
    assert_eq!(t.set_unread(3), None);
}

#[test]
fn one_left_click_shows_the_window_once() {
    let events = vec![
        IconEvent::Click { left: true, up: false },
        IconEvent::Click { left: true, up: true },
        IconEvent::Click { left: false, up: true },
        IconEvent::Other,
    ];
    assert_eq!(tray().poll_actions(&events, &vec![]), vec![TrayAction::Show]);
}

#[test]
fn menu_entries_come_after_clicks() {
    let events = vec![IconEvent::Click { left: true, up: true }];
    let chosen = vec!["quit".to_string(), "other".to_string(), "show".to_string()];
    assert_eq!(tray().poll_actions(&events, &chosen), vec![TrayAction::Show, TrayAction::Quit, TrayAction::Show]);
}

#[test]
fn the_icon_is_a_blue_square() {
    let expected: Vec<u8> = [0x2bu8, 0x6c, 0xb0, 0xff].iter().copied().cycle().take(16 * 16 * 4).collect();
    assert_eq!(placeholder_pixels(), expected);
}

#[test]
fn only_the_first_click_handler_counts() {
    let mut toasts: Toasts<&str, u32> = no_toasts();
    assert_eq!(toast_clicked(&toasts, Some("acc".to_string())), None);
    set_toast_click_handler(&mut toasts, "first");
    set_toast_click_handler(&mut toasts, "second");
    assert_eq!(toasts.handler, Some("first"));
    assert_eq!(toast_clicked(&toasts, Some("acc".to_string())).as_deref(), Some("acc"));
    assert_eq!(toast_clicked(&toasts, None), None);
}

#[test]
fn the_last_notices_are_kept() {
    let mut toasts: Toasts<(), u32> = no_toasts();
    for n in 0..40 {
        assert_eq!(show_new_mail_toast(&mut toasts, Ok(n)), None);
    }
    assert_eq!(toasts.shown, (8..40).collect::<Vec<u32>>());
    let text = show_new_mail_toast(&mut toasts, Err("no shell".to_string()));
    assert_eq!(text.as_deref(), Some("could not show new-mail toast: no shell"));
    assert_eq!(toasts.shown.len(), 32);
}
