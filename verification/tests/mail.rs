use esmail::imap::{
    decode_rfc2047, fetch_flags, fetch_headers, fetch_mailboxes, fetch_raw, flag_to_str, flatten_tree, format_address, from_uid_query, mailbox_info,
    mailbox_state, mailbox_tree, newest_first, page_query, page_range, parse_envelope_header, range_query, read_fetched,
    read_headers, read_headers_from, store_queries, stored_flags, uid_query, Address, Envelope, FetchError, FetchedMessage, Flag,
    ListedName, MailHeader, MailboxInfo, NameAttribute, SpecialUse,
};
use esmail::mailboxes::{descendants_end, visible_rows};

fn mb(name: &str, delimiter: &str, special_use: Option<SpecialUse>) -> MailboxInfo {
    MailboxInfo { name: name.to_string(), delimiter: Some(delimiter.to_string()), special_use, noselect: false }
}

fn mb_noselect(name: &str, delimiter: &str) -> MailboxInfo {
    MailboxInfo { name: name.to_string(), delimiter: Some(delimiter.to_string()), special_use: None, noselect: true }
}

#[test]
fn is_seen_and_is_flagged_read_the_flags_list() {
    let mut h = MailHeader {
        uid: 1,
        subject: String::new(),
        from: String::new(),
        to: String::new(),
        date: String::new(),
        message_id: String::new(),
        flags: vec![],
    };
    assert!(!h.is_seen());
    assert!(!h.is_flagged());

    h.flags = vec!["\\Seen".to_string(), "\\Flagged".to_string()];
    assert!(h.is_seen());
    assert!(h.is_flagged());
}

#[test]
fn special_use_from_name_recognizes_well_known_folders_case_insensitively() {
    assert_eq!(SpecialUse::from_name("INBOX"), Some(SpecialUse::Inbox));
    assert_eq!(SpecialUse::from_name("sent"), Some(SpecialUse::Sent));
    assert_eq!(SpecialUse::from_name("Trash"), Some(SpecialUse::Trash));
    assert_eq!(SpecialUse::from_name("Work"), None);
}

#[test]
fn special_use_from_name_does_not_match_a_substring() {
    assert_eq!(SpecialUse::from_name("Sent to Boss"), None);
}

#[test]
fn mailbox_tree_puts_flat_mailboxes_at_the_root() {
    let mailboxes = vec![mb("INBOX", "/", Some(SpecialUse::Inbox)), mb("Archive", "/", Some(SpecialUse::Archive))];
    let tree = mailbox_tree(&mailboxes);
    let labels: Vec<&str> = tree.iter().map(|n| n.label.as_str()).collect();
    // INBOX ranks ahead of Archive regardless of alphabetical order.
    assert_eq!(labels, vec!["INBOX", "Archive"]);
}

#[test]
fn mailbox_tree_splits_on_the_delimiter_into_a_hierarchy() {
    let mailboxes = vec![mb("Work/Invoices", "/", None), mb("Work/Receipts", "/", None)];
    let tree = mailbox_tree(&mailboxes);
    assert_eq!(tree.len(), 1);
    assert_eq!(tree[0].label, "Work");
    assert_eq!(tree[0].full_name, None, "Work itself was never listed, only its children");
    let child_labels: Vec<&str> = tree[0].children.iter().map(|n| n.label.as_str()).collect();
    assert_eq!(child_labels, vec!["Invoices", "Receipts"]);
    assert_eq!(tree[0].children[0].full_name.as_deref(), Some("Work/Invoices"));
}

#[test]
fn mailbox_tree_sorts_special_use_folders_first_in_a_fixed_order() {
    let mailboxes = vec![
        mb("Zzz", "/", None),
        mb("Trash", "/", Some(SpecialUse::Trash)),
        mb("INBOX", "/", Some(SpecialUse::Inbox)),
        mb("Aaa", "/", None),
        mb("Sent", "/", Some(SpecialUse::Sent)),
    ];
    let tree = mailbox_tree(&mailboxes);
    let labels: Vec<&str> = tree.iter().map(|n| n.label.as_str()).collect();
    assert_eq!(labels, vec!["INBOX", "Sent", "Trash", "Aaa", "Zzz"]);
}

#[test]
fn mailbox_tree_treats_an_empty_delimiter_as_no_hierarchy() {
    let mailboxes = vec![MailboxInfo { name: "A/B".to_string(), delimiter: None, special_use: None, noselect: false }];
    let tree = mailbox_tree(&mailboxes);
    assert_eq!(tree.len(), 1);
    assert_eq!(tree[0].label, "A/B");
    assert_eq!(tree[0].full_name.as_deref(), Some("A/B"));
    assert!(tree[0].children.is_empty());
}

#[test]
fn mailbox_tree_treats_a_noselect_mailbox_like_one_never_listed_at_all() {
    let mailboxes = vec![mb_noselect("[Gmail]", "/"), mb("[Gmail]/Sent Mail", "/", Some(SpecialUse::Sent))];
    let tree = mailbox_tree(&mailboxes);
    assert_eq!(tree.len(), 1);
    assert_eq!(tree[0].label, "[Gmail]");
    assert_eq!(tree[0].full_name, None, "a \\Noselect mailbox must not be selectable");
    assert_eq!(tree[0].children[0].full_name.as_deref(), Some("[Gmail]/Sent Mail"));
}

#[test]
fn flatten_tree_preserves_depth_and_order() {
    let mailboxes = vec![mb("INBOX", "/", Some(SpecialUse::Inbox)), mb("Work/Invoices", "/", None)];
    let rows = flatten_tree(&mailbox_tree(&mailboxes));
    assert_eq!(rows.len(), 3); // INBOX, Work, Work/Invoices
    assert_eq!((rows[0].depth, rows[0].label.as_str(), rows[0].full_name.as_deref()), (0, "INBOX", Some("INBOX")));
    assert_eq!((rows[1].depth, rows[1].label.as_str(), rows[1].full_name.as_deref()), (0, "Work", None));
    assert_eq!((rows[2].depth, rows[2].label.as_str(), rows[2].full_name.as_deref()), (1, "Invoices", Some("Work/Invoices")));
}

#[test]
fn flag_to_str_maps_system_flags() {
    assert_eq!(flag_to_str(&Flag::Seen), "\\Seen");
    assert_eq!(flag_to_str(&Flag::Flagged), "\\Flagged");
    assert_eq!(flag_to_str(&Flag::Deleted), "\\Deleted");
}

#[test]
fn flag_to_str_passes_a_custom_flag_through_verbatim() {
    assert_eq!(flag_to_str(&Flag::Custom("$MyLabel".into())), "$MyLabel");
}

#[test]
fn folding_a_folder_hides_its_subtree() {
    let mailboxes = vec![mb("A/B/C", "/", None), mb("A/D", "/", None), mb("E", "/", None)];
    let rows = flatten_tree(&mailbox_tree(&mailboxes));
    let labels: Vec<&str> = rows.iter().map(|r| r.label.as_str()).collect();
    assert_eq!(labels, vec!["A", "B", "C", "D", "E"]);
    assert_eq!(rows[2].key, "A\tB\tC");
    assert_eq!(visible_rows(&rows, &vec![]), vec![0, 1, 2, 3, 4]);
    assert_eq!(visible_rows(&rows, &vec!["A\tB".to_string()]), vec![0, 1, 3, 4]);
    assert_eq!(visible_rows(&rows, &vec!["A".to_string()]), vec![0, 4]);
    assert_eq!(descendants_end(&rows, 0), 4);
    assert_eq!(descendants_end(&rows, 1), 3);
}

#[test]
fn encoded_words_are_decoded() {
    let bytes = b"=?utf-8?q?caf=C3=A9?=".to_vec();
    assert_eq!(decode_rfc2047(&bytes), "café");
    assert_eq!(decode_rfc2047(&b"plain".to_vec()), "plain");
}

#[test]
fn addresses_are_written_with_and_without_a_name() {
    assert_eq!(format_address(Some("Al".to_string()), "al", "x.org"), "Al <al@x.org>");
    assert_eq!(format_address(None, "al", "x.org"), "al@x.org");
}

#[test]
fn an_envelope_becomes_a_header() {
    let envelope = Envelope {
        date: Some(b"today".to_vec()),
        subject: Some(b"=?utf-8?b?aGV5?=".to_vec()),
        from: Some(vec![Address { name: None, mailbox: Some(b"a".to_vec()), host: Some(b"x.org".to_vec()) }]),
        to: None,
        message_id: Some(b"<1@x>".to_vec()),
    };
    let h = parse_envelope_header(9, &envelope, vec!["\\Seen".to_string()]);
    assert_eq!(h.uid, 9);
    assert_eq!(h.subject, "hey");
    assert_eq!(h.from, "a@x.org");
    assert_eq!(h.to, "");
    assert_eq!(h.date, "today");
    assert_eq!(h.message_id, "<1@x>");
    assert!(h.is_seen());
}

#[test]
fn pages_count_from_the_newest() {
    assert!(page_range(0, 1).is_none());
    let first = page_range(120, 1).unwrap();
    assert_eq!((first.start, first.end, first.total_pages), (71, 120, 3));
    let last = page_range(120, 3).unwrap();
    assert_eq!((last.start, last.end, last.total_pages), (1, 20, 3));
}

#[test]
fn headers_are_read_or_the_first_problem_is_told() {
    let ok = FetchedMessage { uid: Some(3), envelope: None, flags: vec![] };
    assert_eq!(read_fetched(Ok(ok)).unwrap_err().message(), "No envelope");
    let no_uid = FetchedMessage { uid: None, envelope: None, flags: vec![] };
    assert_eq!(read_fetched(Ok(no_uid)).unwrap_err().message(), "No UID");
    assert!(matches!(read_headers(vec![Err("gone".to_string())]), Err(FetchError::Response(e)) if e == "gone"));
}

fn message(uid: u32) -> Result<FetchedMessage, String> {
    let envelope = Envelope { date: None, subject: None, from: None, to: None, message_id: None };
    Ok(FetchedMessage { uid: Some(uid), envelope: Some(envelope), flags: vec![] })
}

#[test]
fn headers_below_the_first_uid_asked_for_are_left_out() {
    let uids = |first: u32, sent: Vec<u32>| -> Vec<u32> {
        let msgs = sent.into_iter().map(message).collect();
        read_headers_from(first, msgs).unwrap().iter().map(|h| h.uid).collect()
    };
    assert_eq!(uids(8, vec![7]), Vec::<u32>::new());
    assert_eq!(uids(8, vec![7, 9, 8]), vec![9, 8]);
    assert_eq!(uids(8, vec![8]), vec![8]);
    assert!(matches!(
        read_headers_from(8, vec![message(9), Err("gone".to_string())]),
        Err(FetchError::Response(e)) if e == "gone"
    ));
}

#[test]
fn newest_headers_come_first() {
    let one = MailHeader {
        uid: 1,
        subject: String::new(),
        from: String::new(),
        to: String::new(),
        date: String::new(),
        message_id: String::new(),
        flags: vec![],
    };
    let mut two = one.clone();
    two.uid = 2;
    let uids: Vec<u32> = newest_first(vec![one, two]).iter().map(|h| h.uid).collect();
    assert_eq!(uids, vec![2, 1]);
}

#[test]
fn queries_are_written_as_the_server_takes_them() {
    assert_eq!(range_query(3, 9), "3:9");
    assert_eq!(from_uid_query(7), "7:*");
    assert_eq!(uid_query(7), "7");
    assert_eq!(
        store_queries(&vec!["\\Seen".to_string()], &vec!["\\Flagged".to_string(), "x".to_string()]),
        vec!["+FLAGS (\\Seen)", "-FLAGS (\\Flagged x)"]
    );
    assert!(store_queries(&vec![], &vec![]).is_empty());
}

#[test]
fn stored_flags_are_the_last_ones_reported() {
    let reported = vec![vec![Flag::Seen], vec![Flag::Seen, Flag::Flagged]];
    assert_eq!(stored_flags(5, &reported), Ok(vec!["\\Seen".to_string(), "\\Flagged".to_string()]));
    assert!(stored_flags(5, &vec![]).is_err());
    assert_eq!(fetch_flags(&vec![Flag::Answered]), vec!["\\Answered"]);
}

#[test]
fn a_listed_mailbox_is_classified_by_attribute_before_name() {
    let info = mailbox_info("Sent".to_string(), Some("/".to_string()), &vec![NameAttribute::Trash]);
    assert_eq!(info.special_use, Some(SpecialUse::Trash));
    let info = mailbox_info("Sent".to_string(), None, &vec![NameAttribute::NoSelect]);
    assert_eq!(info.special_use, Some(SpecialUse::Sent));
    assert!(info.noselect);
}

#[test]
fn an_unreported_mailbox_state_counts_as_zero() {
    let state = mailbox_state(None, Some(4));
    assert_eq!((state.uid_validity, state.uid_next), (0, 4));
}

#[test]
fn a_page_of_headers_is_asked_for_and_read_newest_first() {
    assert_eq!(page_query(0, 1), None);
    assert_eq!(page_query(120, 1).as_deref(), Some("71:120"));
    assert_eq!(page_query(120, 3).as_deref(), Some("1:20"));
    let fetched = |uid: u32| {
        let envelope = Envelope {
            subject: Some(b"hello".to_vec()),
            from: None,
            to: None,
            date: None,
            message_id: None,
        };
        Ok(FetchedMessage { uid: Some(uid), envelope: Some(envelope), flags: vec![Flag::Seen] })
    };
    let page = fetch_headers(120, vec![fetched(5), fetched(6)]).ok().unwrap();
    assert_eq!(page.total_pages, 3);
    let uids: Vec<u32> = page.headers.iter().map(|h| h.uid).collect();
    assert_eq!(uids, vec![6, 5]);
    assert!(page.headers[0].is_seen());
    let empty = fetch_headers(0, vec![]).ok().unwrap();
    assert_eq!((empty.headers.len(), empty.total_pages), (0, 0));
    let failed = fetch_headers(2, vec![fetched(5), Err("gone".to_string())]);
    assert!(matches!(failed, Err(FetchError::Response(e)) if e == "gone"));
}

#[test]
fn mailboxes_that_cannot_be_read_are_passed_over() {
    let name = |name: &str| {
        Some(ListedName { name: name.to_string(), delimiter: Some("/".to_string()), attributes: vec![] })
    };
    let infos = fetch_mailboxes(vec![name("INBOX"), None, name("Work")]);
    let names: Vec<&str> = infos.iter().map(|i| i.name.as_str()).collect();
    assert_eq!(names, vec!["INBOX", "Work"]);
    assert_eq!(infos[0].special_use, Some(SpecialUse::Inbox));
}

#[test]
fn a_message_without_a_source_says_so() {
    assert_eq!(fetch_raw(None), Err("Message not found or no body".to_string()));
    assert_eq!(fetch_raw(Some(Err("gone".to_string()))), Err("gone".to_string()));
    assert_eq!(fetch_raw(Some(Ok(None))), Err("No body".to_string()));
    assert_eq!(fetch_raw(Some(Ok(Some(vec![1, 2])))), Ok(vec![1, 2]));
}
