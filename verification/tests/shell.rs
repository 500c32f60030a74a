use std::path::Path;

use esmail::ipc::LocalSocket;
use esmail::shell::{
    acquire_single_instance, claim_names, icon_is_outdated, register_notification_identity, registry_key,
    set_process_identity, small_icon_px, stored, taskbar_is_dark, unregister_notification_identity, wide, Claim,
    FirstInstance, Instance, APP_USER_MODEL_ID, SINGLE_INSTANCE_MUTEX,
};

/// The lines of the installer script that name the program to the system.
const INSTALLER_LINES: &str = "AppMutex=esMail.SingleInstance\nAppUserModelID: \"io.github.va1erian.esmail\"\n";

#[test]
fn installer_uses_the_same_identifiers() {
    let script = INSTALLER_LINES;
    assert!(script.contains(&format!("AppUserModelID: \"{APP_USER_MODEL_ID}\"")), "AppUserModelID differs");
    assert!(script.contains(&format!("AppMutex={SINGLE_INSTANCE_MUTEX}")), "AppMutex differs");
}

#[test]
fn small_icon_size_is_sane() {
    assert!((16..=64).contains(&small_icon_px(None)));
    assert!((16..=64).contains(&small_icon_px(Some(0))));
    assert_eq!(small_icon_px(Some(20)), 20);
    assert_eq!(small_icon_px(Some(-1)), 16);
}

fn std_wide(s: &str) -> Vec<u16> {
    s.encode_utf16().chain(std::iter::once(0)).collect()
}

#[test]
fn wide_texts_are_utf16_with_a_zero() {
    for s in ["", "esMail", "é€", "a😀b", "\u{10ffff}\u{10000}"] {
        assert_eq!(wide(s), std_wide(s), "{s}");
    }
}

#[test]
fn a_second_copy_finds_the_first() {
    assert_eq!(acquire_single_instance(None), Instance::First(FirstInstance { show_event: false }));
    let first = Claim { has_event: true, has_lock: true, existed: false };
    assert_eq!(acquire_single_instance(Some(first)), Instance::First(FirstInstance { show_event: true }));
    let second = Claim { has_event: true, has_lock: true, existed: true };
    assert_eq!(acquire_single_instance(Some(second)), Instance::AlreadyRunning);
    // A lock that could not be made says nothing about another copy.
    let broken = Claim { has_event: false, has_lock: false, existed: true };
    assert_eq!(acquire_single_instance(Some(broken)), Instance::First(FirstInstance { show_event: false }));
    assert!(FirstInstance { show_event: true }.on_show_requested());
}

#[test]
fn the_names_are_those_the_system_is_given() {
    assert_eq!(claim_names(), (std_wide("esMail.ShowWindow"), std_wide("esMail.SingleInstance")));
    assert_eq!(set_process_identity(), std_wide("io.github.va1erian.esmail"));
    assert_eq!(registry_key(), std_wide("Software\\Classes\\AppUserModelId\\io.github.va1erian.esmail"));
}

#[test]
fn the_notification_identity_names_the_picture_if_there_is_one() {
    let values = register_notification_identity(Some("C:\\x.png"));
    assert_eq!(values.len(), 2);
    assert_eq!(values[0].name, std_wide("DisplayName"));
    assert_eq!(values[0].value, std_wide("esMail"));
    assert_eq!(values[1].name, std_wide("IconUri"));
    assert_eq!(values[1].value, std_wide("C:\\x.png"));
    assert_eq!(register_notification_identity(None).len(), 1);
    assert!(icon_is_outdated(None, &vec![1]));
    assert!(icon_is_outdated(Some(&vec![2]), &vec![1]));
    assert!(!icon_is_outdated(Some(&vec![1]), &vec![1]));
}

#[test]
fn removing_what_never_was_is_no_error() {
    assert_eq!(unregister_notification_identity(None), Ok(()));
    assert_eq!(unregister_notification_identity(Some(0)), Ok(()));
    assert_eq!(unregister_notification_identity(Some(2)), Ok(()));
    assert_eq!(unregister_notification_identity(Some(5)), Err(5));
    assert_eq!(stored(0), Ok(()));
    assert_eq!(stored(2), Err(2));
}

#[test]
fn the_tray_is_dark_unless_the_system_says_otherwise() {
    assert!(taskbar_is_dark(None));
    assert!(taskbar_is_dark(Some((2, 0))));
    assert!(taskbar_is_dark(Some((0, 0))));
    assert!(!taskbar_is_dark(Some((0, 1))));
}

#[test]
fn the_socket_has_a_directory_of_its_own() {
    for (runtime, temp, endpoint) in
        [(Some("/run/user/1"), "/tmp", "esmail"), (None, "/tmp", "esmail"), (Some("/run/"), "/tmp", "/abs"), (Some(""), "/t", "e")]
    {
        let expected = Path::new(runtime.unwrap_or(temp)).join(endpoint);
        assert_eq!(LocalSocket::directory(runtime, temp, endpoint), expected.to_str().unwrap());
        assert_eq!(LocalSocket::path(runtime, temp, endpoint), expected.join("ipc.sock").to_str().unwrap());
    }
}
