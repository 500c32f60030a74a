use esmail::files::{export_file_name, format_size, safe_attachment_filename};
use esmail::imap::{MailboxRow, SpecialUse};
use esmail::mailboxes::find_special_use_mailbox;

#[test]
fn format_size_uses_bytes_below_one_kb() {
    assert_eq!(format_size(0), "0 B");
    assert_eq!(format_size(1023), "1023 B");
}

#[test]
fn format_size_uses_kb_between_one_kb_and_one_mb() {
    assert_eq!(format_size(1024), "1.0 KB");
    assert_eq!(format_size(4300), "4.2 KB");
}

#[test]
fn format_size_uses_mb_at_one_mb_and_above() {
    assert_eq!(format_size(1024 * 1024), "1.0 MB");
    assert_eq!(format_size(5 * 1024 * 1024 + 512 * 1024), "5.5 MB");
}

#[test]
fn format_size_agrees_with_floating_point() {
    let mut sizes: Vec<usize> = vec![usize::MAX, usize::MAX - 1023, (1 << 53) + 1, (1 << 60) + 12345];
    for i in 0..4000usize {
        sizes.push(i * 389 + 7);
        sizes.push(i * 1_048_583 + i);
        sizes.push(1024 * i + 51);
    }
    for n in sizes {
        let bytes = n as f64;
        let expected = if bytes >= 1024.0 * 1024.0 {
            format!("{:.1} MB", bytes / (1024.0 * 1024.0))
        } else if bytes >= 1024.0 {
            format!("{:.1} KB", bytes / 1024.0)
        } else {
            format!("{} B", bytes as u64)
        };
        assert_eq!(format_size(n), expected, "{n}");
    }
}

#[test]
fn safe_attachment_filename_passes_an_ordinary_name_through() {
    assert_eq!(safe_attachment_filename("report.pdf"), "report.pdf");
}

#[test]
fn safe_attachment_filename_strips_relative_traversal() {
    assert_eq!(safe_attachment_filename("../../../evil.exe"), "evil.exe");
    assert_eq!(safe_attachment_filename("../../etc/passwd"), "passwd");
}

#[test]
fn safe_attachment_filename_strips_a_windows_absolute_path() {
    assert_eq!(safe_attachment_filename(r"C:\Windows\System32\evil.dll"), "evil.dll");
}

#[test]
fn safe_attachment_filename_falls_back_when_nothing_usable_remains() {
    assert_eq!(safe_attachment_filename(""), "attachment");
    assert_eq!(safe_attachment_filename(".."), "attachment");
    assert_eq!(safe_attachment_filename("/"), "attachment");
}

#[test]
fn export_file_name_uses_the_subject_with_unsafe_characters_replaced() {
    assert_eq!(export_file_name("Votre projet: un coup de pouce.", 7), "Votre projet_ un coup de pouce.eml");
    assert_eq!(export_file_name(r"a/b\c?d", 7), "a_b_c_d.eml");
}

#[test]
fn export_file_name_falls_back_to_the_uid() {
    assert_eq!(export_file_name("", 42), "message-42.eml");
    assert_eq!(export_file_name("???", 42), "message-42.eml");
}

#[test]
fn export_file_name_is_bounded() {
    let name = export_file_name(&"x".repeat(500), 1);
    assert_eq!(name.len(), 60 + ".eml".len());
}

#[test]
fn export_file_name_keeps_letters_of_any_script() {
    assert_eq!(export_file_name("Été – 報告", 1), "Été _ 報告.eml");
    assert_eq!(export_file_name(&format!("{} tail", "y".repeat(59)), 1), format!("{}.eml", "y".repeat(59)));
}

fn row(full_name: Option<&str>, special_use: Option<SpecialUse>) -> MailboxRow {
    let label = full_name.unwrap_or("").to_string();
    MailboxRow {
        depth: 0,
        key: label.clone(),
        label,
        full_name: full_name.map(str::to_string),
        special_use,
        has_children: false,
    }
}

#[test]
fn find_special_use_mailbox_prefers_a_classified_mailbox_over_the_default() {
    let rows = vec![
        row(Some("INBOX"), Some(SpecialUse::Inbox)),
        row(Some("[Gmail]/Sent Mail"), Some(SpecialUse::Sent)),
    ];
    assert_eq!(find_special_use_mailbox(&rows, SpecialUse::Sent, "Sent"), "[Gmail]/Sent Mail");
}

#[test]
fn find_special_use_mailbox_falls_back_to_default_when_nothing_matches() {
    let rows = vec![row(Some("INBOX"), Some(SpecialUse::Inbox))];
    assert_eq!(find_special_use_mailbox(&rows, SpecialUse::Trash, "Trash"), "Trash");
}

#[test]
fn find_special_use_mailbox_falls_back_when_mailboxes_have_not_loaded_yet() {
    assert_eq!(find_special_use_mailbox(&[], SpecialUse::Archive, "Archive"), "Archive");
}
