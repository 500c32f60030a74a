use esmail::db;
use esmail::db::{
    after_migration, column_already_there, flags_column, parse_flags_column, read_header, read_hit, sync_decision, unix_seconds,
    DbCommand, DbEvent, DbStep, Followup, MessageColumns, Query, Question, SearchHit, SqlValue, Statement, SyncPlan,
};
use esmail::imap::{Attachment, MailHeader};
use esmail::search_query::fts_match;
use rusqlite::types::Value;
use rusqlite::{params_from_iter, Connection};

// Runs what the library plans on a real database.

fn value(v: SqlValue) -> Value {
    match v {
        SqlValue::Null => Value::Null,
        SqlValue::Integer(n) => Value::Integer(n),
        SqlValue::Text(s) => Value::Text(s),
    }
}

fn values(params: Vec<SqlValue>) -> Vec<Value> {
    params.into_iter().map(value).collect()
}

fn run(conn: &Connection, statements: Vec<Statement>) -> rusqlite::Result<()> {
    for s in statements {
        conn.execute(s.sql(), params_from_iter(values(s.params())))?;
    }
    Ok(())
}

fn add_column(conn: &Connection, sql: &str) -> rusqlite::Result<()> {
    let outcome = conn.execute(sql, []);
    let said = outcome.as_ref().map(|_| ()).map_err(|e| e.to_string());
    match after_migration(said.as_ref().map(|_| ()).map_err(|e| e.as_str())) {
        Ok(()) => Ok(()),
        Err(_) => outcome.map(|_| ()),
    }
}

fn init_schema(conn: &Connection) -> rusqlite::Result<()> {
    conn.execute_batch(db::SCHEMA_SQL)?;
    add_column(conn, db::ADD_MESSAGE_ID_SQL)?;
    add_column(conn, db::ADD_FLAGS_SQL)
}

fn index_mail(conn: &Connection, account: &str, mailbox: &str, header: &MailHeader, body: &str) -> rusqlite::Result<()> {
    run(conn, db::index_mail(account, mailbox, header, body, 1))
}

fn index_headers(conn: &Connection, account: &str, mailbox: &str, headers: Vec<MailHeader>) -> rusqlite::Result<()> {
    run(conn, db::index_headers(account, mailbox, &headers))
}

fn update_flags(conn: &Connection, account: &str, mailbox: &str, uid: u32, flags: &[String]) -> rusqlite::Result<()> {
    run(conn, db::update_flags(account, mailbox, uid, &flags.to_vec()))
}

fn remove_message(conn: &Connection, account: &str, mailbox: &str, uid: u32) -> rusqlite::Result<()> {
    run(conn, db::remove_message(account, mailbox, uid))
}

fn evict_lru_bodies(conn: &Connection, max_rows: i64) -> rusqlite::Result<()> {
    run(conn, db::evict_lru_bodies(max_rows))
}

fn fetch_mail(conn: &Connection, account: &str, mailbox: &str, uid: u32) -> rusqlite::Result<(MailHeader, String)> {
    let query = Query::Fetch { account: account.to_string(), mailbox: mailbox.to_string(), uid };
    conn.query_row(query.sql(), params_from_iter(values(query.params())), |row| {
        let columns = MessageColumns {
            uid,
            subject: row.get(0)?,
            from: row.get(1)?,
            to: row.get(2)?,
            date: row.get(3)?,
            message_id: row.get(4)?,
            flags: row.get(6)?,
        };
        Ok((read_header(columns), row.get(5)?))
    })
}

fn search(conn: &Connection, account: Option<&str>, query: &str, mailbox: Option<&str>) -> rusqlite::Result<Vec<SearchHit>> {
    let query = Query::Search {
        account: account.map(str::to_string),
        mailbox: mailbox.map(str::to_string),
        query: query.to_string(),
    };
    let mut stmt = conn.prepare(query.sql())?;
    let rows = stmt.query_map(params_from_iter(values(query.params())), |row| {
        let columns = MessageColumns {
            uid: row.get(0)?,
            subject: row.get(1)?,
            from: row.get(2)?,
            to: row.get(3)?,
            date: row.get(4)?,
            message_id: row.get(5)?,
            flags: row.get(6)?,
        };
        Ok(read_hit(row.get(7)?, row.get(8)?, columns))
    })?;
    rows.collect()
}

fn stored_state(conn: &Connection, account: &str, mailbox: &str) -> Option<(u32, u32)> {
    let query = Query::State { account: account.to_string(), mailbox: mailbox.to_string() };
    conn.query_row(query.sql(), params_from_iter(values(query.params())), |row| Ok((row.get(0)?, row.get(1)?))).ok()
}

fn report_mailbox_state(conn: &Connection, account: &str, mailbox: &str, validity: u32, next: u32) -> rusqlite::Result<SyncPlan> {
    let previous = stored_state(conn, account, mailbox);
    let (plan, statements) = db::report_mailbox_state(account, mailbox, validity, next, previous);
    run(conn, statements)?;
    Ok(plan)
}

fn test_header(uid: u32) -> MailHeader {
    MailHeader {
        uid,
        subject: format!("Subject {uid}"),
        from: "alice@example.com".to_string(),
        to: "bob@example.com".to_string(),
        date: "2026-01-01".to_string(),
        message_id: format!("<msg{uid}@example.com>"),
        flags: Vec::new(),
    }
}

fn test_conn() -> Connection {
    let conn = Connection::open_in_memory().unwrap();
    init_schema(&conn).unwrap();
    conn
}

#[test]
fn init_schema_is_idempotent() {
    let conn = Connection::open_in_memory().unwrap();
    init_schema(&conn).unwrap();
    init_schema(&conn).unwrap();
}

#[test]
fn init_schema_adds_message_id_to_a_pre_b7_messages_table() {
    let conn = Connection::open_in_memory().unwrap();
    conn.execute_batch(
        "CREATE TABLE messages (
            account_id TEXT NOT NULL, mailbox TEXT NOT NULL, uid INTEGER NOT NULL,
            subject TEXT NOT NULL, from_addr TEXT NOT NULL, to_addr TEXT NOT NULL,
            date TEXT NOT NULL, size INTEGER NOT NULL DEFAULT 0,
            flags TEXT NOT NULL DEFAULT '', thread_key TEXT,
            PRIMARY KEY (account_id, mailbox, uid)
        )",
    )
    .unwrap();

    init_schema(&conn).unwrap();
    index_mail(&conn, "acc", "INBOX", &test_header(1), "body").unwrap();

    let (header, _) = fetch_mail(&conn, "acc", "INBOX", 1).unwrap();
    assert_eq!(header.message_id, "<msg1@example.com>");
}

#[test]
fn init_schema_adds_flags_to_a_pre_b8_messages_table() {
    let conn = Connection::open_in_memory().unwrap();
    conn.execute_batch(
        "CREATE TABLE messages (
            account_id TEXT NOT NULL, mailbox TEXT NOT NULL, uid INTEGER NOT NULL,
            subject TEXT NOT NULL, from_addr TEXT NOT NULL, to_addr TEXT NOT NULL,
            date TEXT NOT NULL, message_id TEXT NOT NULL DEFAULT '',
            size INTEGER NOT NULL DEFAULT 0, thread_key TEXT,
            PRIMARY KEY (account_id, mailbox, uid)
        )",
    )
    .unwrap();

    init_schema(&conn).unwrap();
    let mut header = test_header(1);
    header.flags = vec!["\\Seen".to_string()];
    index_mail(&conn, "acc", "INBOX", &header, "body").unwrap();

    let (fetched, _) = fetch_mail(&conn, "acc", "INBOX", 1).unwrap();
    assert_eq!(fetched.flags, vec!["\\Seen".to_string()]);
}

#[test]
fn index_then_fetch_round_trips() {
    let conn = test_conn();
    index_mail(&conn, "acc", "INBOX", &test_header(1), "<p>hello</p>").unwrap();

    let (header, body) = fetch_mail(&conn, "acc", "INBOX", 1).unwrap();
    assert_eq!(header.uid, 1);
    assert_eq!(header.subject, "Subject 1");
    assert_eq!(body, "<p>hello</p>");
}

#[test]
fn fetch_mail_errors_when_metadata_is_cached_but_the_body_was_evicted() {
    let conn = test_conn();
    index_headers(&conn, "acc", "INBOX", vec![test_header(1)]).unwrap();

    assert!(fetch_mail(&conn, "acc", "INBOX", 1).is_err());
}

#[test]
fn indexing_the_same_uid_twice_updates_rather_than_duplicates() {
    let conn = test_conn();
    index_mail(&conn, "acc", "INBOX", &test_header(1), "<p>v1</p>").unwrap();
    let mut updated = test_header(1);
    updated.subject = "Updated subject".to_string();
    index_mail(&conn, "acc", "INBOX", &updated, "<p>v2</p>").unwrap();

    let count: i64 = conn.query_row("SELECT COUNT(*) FROM messages", [], |r| r.get(0)).unwrap();
    assert_eq!(count, 1);

    let (header, body) = fetch_mail(&conn, "acc", "INBOX", 1).unwrap();
    assert_eq!(header.subject, "Updated subject");
    assert_eq!(body, "<p>v2</p>");
}

#[test]
fn accounts_and_mailboxes_do_not_collide_on_the_same_uid() {
    let conn = test_conn();
    index_mail(&conn, "acc1", "INBOX", &test_header(1), "acc1 inbox").unwrap();
    index_mail(&conn, "acc2", "INBOX", &test_header(1), "acc2 inbox").unwrap();
    index_mail(&conn, "acc1", "Archive", &test_header(1), "acc1 archive").unwrap();

    assert_eq!(fetch_mail(&conn, "acc1", "INBOX", 1).unwrap().1, "acc1 inbox");
    assert_eq!(fetch_mail(&conn, "acc2", "INBOX", 1).unwrap().1, "acc2 inbox");
    assert_eq!(fetch_mail(&conn, "acc1", "Archive", 1).unwrap().1, "acc1 archive");
}

#[test]
fn index_headers_populates_messages_metadata_without_a_body() {
    let conn = test_conn();
    index_headers(&conn, "acc", "INBOX", vec![test_header(1), test_header(2)]).unwrap();

    let subject: String = conn
        .query_row("SELECT subject FROM messages WHERE account_id = 'acc' AND mailbox = 'INBOX' AND uid = 1", [], |r| r.get(0))
        .unwrap();
    assert_eq!(subject, "Subject 1");

    let bodies: i64 = conn.query_row("SELECT COUNT(*) FROM bodies", [], |r| r.get(0)).unwrap();
    assert_eq!(bodies, 0);
    let fts: i64 = conn.query_row("SELECT COUNT(*) FROM messages_fts", [], |r| r.get(0)).unwrap();
    assert_eq!(fts, 0);
}

#[test]
fn index_headers_does_not_clobber_an_already_cached_body_or_its_size() {
    let conn = test_conn();
    index_mail(&conn, "acc", "INBOX", &test_header(1), "<p>already cached</p>").unwrap();

    index_headers(&conn, "acc", "INBOX", vec![test_header(1)]).unwrap();

    let (_, body) = fetch_mail(&conn, "acc", "INBOX", 1).unwrap();
    assert_eq!(body, "<p>already cached</p>");
    let size: i64 = conn.query_row("SELECT size FROM messages", [], |r| r.get(0)).unwrap();
    assert_eq!(size, "<p>already cached</p>".len() as i64);
}

#[test]
fn index_mail_round_trips_flags() {
    let conn = test_conn();
    let mut header = test_header(1);
    header.flags = vec!["\\Seen".to_string(), "\\Flagged".to_string()];
    index_mail(&conn, "acc", "INBOX", &header, "body").unwrap();

    let (fetched, _) = fetch_mail(&conn, "acc", "INBOX", 1).unwrap();
    assert_eq!(fetched.flags, vec!["\\Seen", "\\Flagged"]);
}

#[test]
fn update_flags_overwrites_a_cached_messages_flags() {
    let conn = test_conn();
    index_mail(&conn, "acc", "INBOX", &test_header(1), "body").unwrap();

    update_flags(&conn, "acc", "INBOX", 1, &["\\Seen".to_string()]).unwrap();

    let (header, _) = fetch_mail(&conn, "acc", "INBOX", 1).unwrap();
    assert_eq!(header.flags, vec!["\\Seen"]);
}

#[test]
fn update_flags_on_an_uncached_message_is_a_harmless_no_op() {
    let conn = test_conn();
    // Nothing is cached for uid 1.
    update_flags(&conn, "acc", "INBOX", 1, &["\\Seen".to_string()]).unwrap();
}

#[test]
fn remove_message_deletes_from_every_table() {
    let conn = test_conn();
    index_mail(&conn, "acc", "INBOX", &test_header(1), "body text").unwrap();

    remove_message(&conn, "acc", "INBOX", 1).unwrap();

    assert!(fetch_mail(&conn, "acc", "INBOX", 1).is_err());
    let fts: i64 = conn.query_row("SELECT COUNT(*) FROM messages_fts", [], |r| r.get(0)).unwrap();
    assert_eq!(fts, 0);
}

#[test]
fn search_finds_a_matching_subject() {
    let conn = test_conn();
    index_mail(&conn, "acc", "INBOX", &test_header(1), "irrelevant body").unwrap();
    let results = search(&conn, Some("acc"), "\"Subject 1\"", None).unwrap();
    assert_eq!(results.len(), 1);
    assert_eq!(results[0].header.uid, 1);
}

#[test]
fn search_is_scoped_to_the_given_account() {
    let conn = test_conn();
    index_mail(&conn, "acc1", "INBOX", &test_header(1), "body").unwrap();
    index_mail(&conn, "acc2", "INBOX", &test_header(2), "body").unwrap();
    let results = search(&conn, Some("acc1"), "body", None).unwrap();
    assert_eq!(results.len(), 1);
    assert_eq!(results[0].header.uid, 1);
}

#[test]
fn search_without_an_account_spans_all_of_them_and_says_where_each_hit_lives() {
    let conn = test_conn();
    index_mail(&conn, "acc1", "INBOX", &test_header(1), "needle").unwrap();
    index_mail(&conn, "acc2", "Archive", &test_header(1), "needle").unwrap();
    index_mail(&conn, "acc3", "INBOX", &test_header(2), "haystack").unwrap();
    let mut hits: Vec<(String, String, u32)> = search(&conn, None, "needle", None)
        .unwrap()
        .into_iter()
        .map(|h| (h.account_id, h.mailbox, h.header.uid))
        .collect();
    hits.sort();
    // The same UID in two accounts stays two distinct hits.
    assert_eq!(
        hits,
        vec![("acc1".to_string(), "INBOX".to_string(), 1), ("acc2".to_string(), "Archive".to_string(), 1)]
    );
}

#[test]
fn search_mailbox_filter_does_not_allow_sql_injection() {
    let conn = test_conn();
    index_mail(&conn, "acc", "INBOX", &test_header(1), "body").unwrap();
    let malicious_mailbox = "INBOX' OR '1'='1";
    let results = search(&conn, Some("acc"), "body", Some(malicious_mailbox)).unwrap();
    assert_eq!(results.len(), 0);
}

#[test]
fn evict_lru_bodies_keeps_only_the_newest_rows() {
    let conn = test_conn();
    for uid in 1..=5 {
        conn.execute(
            "INSERT INTO bodies (account_id, mailbox, uid, body, cached_at) VALUES ('acc', 'INBOX', ?1, 'x', ?1)",
            [uid],
        )
        .unwrap();
    }
    evict_lru_bodies(&conn, 3).unwrap();

    let mut stmt = conn.prepare("SELECT uid FROM bodies ORDER BY uid").unwrap();
    let uids: Vec<i64> = stmt.query_map([], |r| r.get(0)).unwrap().map(|r| r.unwrap()).collect();
    assert_eq!(uids, vec![3, 4, 5]);
}

#[test]
fn evict_lru_bodies_is_a_no_op_under_the_cap() {
    let conn = test_conn();
    conn.execute(
        "INSERT INTO bodies (account_id, mailbox, uid, body, cached_at) VALUES ('acc', 'INBOX', 1, 'x', 1)",
        [],
    )
    .unwrap();
    evict_lru_bodies(&conn, 100).unwrap();
    let count: i64 = conn.query_row("SELECT COUNT(*) FROM bodies", [], |r| r.get(0)).unwrap();
    assert_eq!(count, 1);
}

#[test]
fn first_time_seeing_a_nonempty_mailbox_fetches_from_uid_1() {
    assert_eq!(sync_decision(None, 100, 50), SyncPlan::FetchFrom { first_new_uid: 1 });
}

#[test]
fn first_time_seeing_an_empty_mailbox_is_up_to_date() {
    // uid_next of 1 means no message has ever been assigned a UID yet.
    assert_eq!(sync_decision(None, 100, 1), SyncPlan::UpToDate);
}

#[test]
fn unchanged_uid_validity_and_uid_next_is_up_to_date() {
    assert_eq!(sync_decision(Some((100, 50)), 100, 50), SyncPlan::UpToDate);
}

#[test]
fn new_mail_since_last_sync_fetches_from_the_old_uid_next() {
    assert_eq!(sync_decision(Some((100, 50)), 100, 80), SyncPlan::FetchFrom { first_new_uid: 50 });
}

#[test]
fn changed_uid_validity_forces_a_full_resync_regardless_of_uid_next() {
    assert_eq!(sync_decision(Some((100, 50)), 200, 50), SyncPlan::Resync);
    assert_eq!(sync_decision(Some((100, 50)), 200, 5), SyncPlan::Resync);
}

#[test]
fn report_mailbox_state_wipes_cached_messages_on_uid_validity_change() {
    let conn = test_conn();
    index_mail(&conn, "acc", "INBOX", &test_header(1), "body").unwrap();
    report_mailbox_state(&conn, "acc", "INBOX", 100, 50).unwrap();

    let plan = report_mailbox_state(&conn, "acc", "INBOX", 200, 50).unwrap();
    assert_eq!(plan, SyncPlan::Resync);

    let count: i64 = conn.query_row("SELECT COUNT(*) FROM messages", [], |r| r.get(0)).unwrap();
    assert_eq!(count, 0);
    let body_count: i64 = conn.query_row("SELECT COUNT(*) FROM bodies", [], |r| r.get(0)).unwrap();
    assert_eq!(body_count, 0);
}

#[test]
fn report_mailbox_state_persists_what_it_saw_for_next_time() {
    let conn = test_conn();
    report_mailbox_state(&conn, "acc", "INBOX", 100, 50).unwrap();
    let plan = report_mailbox_state(&conn, "acc", "INBOX", 100, 50).unwrap();
    assert_eq!(plan, SyncPlan::UpToDate);
}

// Beyond single operations.

#[test]
fn a_resync_leaves_other_mailboxes_alone() {
    let conn = test_conn();
    index_mail(&conn, "acc", "INBOX", &test_header(1), "body").unwrap();
    index_mail(&conn, "acc", "Archive", &test_header(1), "kept").unwrap();
    report_mailbox_state(&conn, "acc", "INBOX", 1, 5).unwrap();
    report_mailbox_state(&conn, "acc", "INBOX", 2, 5).unwrap();
    assert!(fetch_mail(&conn, "acc", "INBOX", 1).is_err());
    assert_eq!(fetch_mail(&conn, "acc", "Archive", 1).unwrap().1, "kept");
    assert_eq!(search(&conn, None, "kept", None).unwrap().len(), 1);
    assert_eq!(stored_state(&conn, "acc", "INBOX"), Some((2, 5)));
}

#[test]
fn the_oldest_bodies_go_when_too_many_are_cached() {
    let conn = test_conn();
    for uid in 1..=3u32 {
        run(&conn, db::index_mail("acc", "INBOX", &test_header(uid), "x", uid as i64)).unwrap();
    }
    evict_lru_bodies(&conn, 2).unwrap();
    assert!(fetch_mail(&conn, "acc", "INBOX", 1).is_err());
    assert!(fetch_mail(&conn, "acc", "INBOX", 2).is_ok());
    assert!(fetch_mail(&conn, "acc", "INBOX", 3).is_ok());
}

#[test]
fn flags_without_spaces_round_trip_through_their_column() {
    let flags = vec!["\\Seen".to_string(), "$Label".to_string()];
    assert_eq!(flags_column(&flags), "\\Seen $Label");
    assert_eq!(parse_flags_column("\\Seen $Label"), flags);
    assert!(parse_flags_column("").is_empty());
}

#[test]
fn a_command_becomes_statements_or_a_question() {
    let step = db::begin(DbCommand::RemoveMessage { account_id: "a".into(), mailbox: "m".into(), uid: 4 }, 9);
    match step {
        DbStep::Run { statements, then_do } => {
            assert_eq!(statements.len(), 3);
            assert!(db::run_done(then_do, Ok(())).is_none());
        }
        _ => panic!("not statements"),
    }
    let step = db::begin(DbCommand::FetchMail { account_id: "a".into(), mailbox: "m".into(), uid: 4 }, 9);
    assert!(matches!(step, DbStep::Ask { query: Query::Fetch { uid: 4, .. }, purpose: Question::Fetch { uid: 4 } }));
}

#[test]
fn failures_name_what_they_are_about() {
    assert!(matches!(db::run_done(Followup::Nothing, Err("disk".into())), Some(DbEvent::Error(e)) if e == "disk"));
    assert!(matches!(db::fetch_done(7, Err("gone".into())), DbEvent::MailFetchFailed { uid: 7, error } if error == "gone"));
    assert!(matches!(db::search_done(Err("bad".into())), DbEvent::Error(e) if e == "bad"));
}

#[test]
fn a_report_is_answered_with_its_plan() {
    let step = db::state_known("a".into(), "m".into(), 5, 9, Some((5, 7)));
    match step {
        DbStep::Run { then_do, .. } => {
            let event = db::run_done(then_do, Ok(()));
            assert!(matches!(event, Some(DbEvent::SyncPlan { plan: SyncPlan::FetchFrom { first_new_uid: 7 }, .. })));
        }
        _ => panic!("not statements"),
    }
}

#[test]
fn attachments_are_not_cached() {
    let conn = test_conn();
    let attachment = Attachment { filename: "a".into(), mime_type: "t".into(), data: vec![1] };
    let cmd = DbCommand::IndexMail {
        account_id: "acc".into(),
        mailbox: "INBOX".into(),
        header: test_header(1),
        body: "b".into(),
        attachments: vec![attachment],
    };
    if let DbStep::Run { statements, .. } = db::begin(cmd, 1) {
        run(&conn, statements).unwrap();
    }
    let (header, body) = fetch_mail(&conn, "acc", "INBOX", 1).unwrap();
    let columns = MessageColumns {
        uid: header.uid,
        subject: header.subject,
        from: header.from,
        to: header.to,
        date: header.date,
        message_id: header.message_id,
        flags: String::new(),
    };
    assert!(matches!(db::fetch_done(1, Ok((columns, body))), DbEvent::MailFetched { attachments, .. } if attachments.is_empty()));
}

#[test]
fn only_a_column_that_is_already_there_counts_as_added() {
    assert_eq!(after_migration(Ok(())), Ok(()));
    assert_eq!(after_migration(Err("duplicate column name: flags")), Ok(()));
    assert_eq!(after_migration(Err("disk I/O error")), Err("disk I/O error".to_string()));
    assert!(column_already_there("error: duplicate column name: flags") && !column_already_there("locked"));
}

#[test]
fn bringing_a_database_up_to_date_twice_changes_nothing() {
    let columns = |conn: &Connection| -> Vec<String> {
        let mut stmt = conn.prepare("SELECT name FROM pragma_table_info('messages') ORDER BY name").unwrap();
        let names = stmt.query_map([], |row| row.get(0)).unwrap();
        names.map(|name| name.unwrap()).collect()
    };
    let conn = test_conn();
    let first = columns(&conn);
    assert!(first.contains(&"message_id".to_string()) && first.contains(&"flags".to_string()));
    init_schema(&conn).unwrap();
    assert_eq!(columns(&conn), first);
    assert!(add_column(&conn, "ALTER TABLE nowhere ADD COLUMN x TEXT").is_err());
}

#[test]
fn an_older_cache_keeps_its_rows() {
    let conn = Connection::open_in_memory().unwrap();
    conn.execute_batch(
        "CREATE TABLE messages (
            account_id TEXT NOT NULL, mailbox TEXT NOT NULL, uid INTEGER NOT NULL,
            subject TEXT NOT NULL, from_addr TEXT NOT NULL, to_addr TEXT NOT NULL,
            date TEXT NOT NULL, size INTEGER NOT NULL DEFAULT 0, thread_key TEXT,
            PRIMARY KEY (account_id, mailbox, uid)
        );
        INSERT INTO messages VALUES ('acc', 'INBOX', 7, 'Hi', 'a@x', 'b@x', 'today', 12, 'k')",
    )
    .unwrap();
    for _ in 0..2 {
        init_schema(&conn).unwrap();
        let row: (String, String, String, i64, String, String, String) = conn
            .query_row(
                "SELECT subject, from_addr, date, size, thread_key, message_id, flags FROM messages WHERE uid = 7",
                [],
                |r| Ok((r.get(0)?, r.get(1)?, r.get(2)?, r.get(3)?, r.get(4)?, r.get(5)?, r.get(6)?)),
            )
            .unwrap();
        let text = |s: &str| s.to_string();
        assert_eq!(row, (text("Hi"), text("a@x"), text("today"), 12, text("k"), text(""), text("")));
        let rows: i64 = conn.query_row("SELECT COUNT(*) FROM messages", [], |r| r.get(0)).unwrap();
        assert_eq!(rows, 1);
    }
    index_mail(&conn, "acc", "INBOX", &test_header(8), "body").unwrap();
    assert_eq!(fetch_mail(&conn, "acc", "INBOX", 8).unwrap().0.message_id, "<msg8@example.com>");
}

#[test]
fn typed_searches_are_understood_by_the_index() {
    let conn = test_conn();
    index_mail(&conn, "acc", "INBOX", &test_header(1), "needle \"quoted\"").unwrap();
    for typed in ["needle", "from:alice needle", "subject:Subject", "\"quoted\"", "' OR 1=1 needle"] {
        let query = fts_match(typed).unwrap();
        let expected = if typed.contains("OR") { 0 } else { 1 };
        assert_eq!(search(&conn, None, &query, None).unwrap().len(), expected, "{typed}");
    }
    assert!(search(&conn, None, &fts_match("to:alice").unwrap(), None).unwrap().is_empty());
}

#[test]
fn a_search_in_one_mailbox_finds_what_lies_there() {
    let conn = test_conn();
    index_mail(&conn, "acc1", "INBOX", &test_header(1), "needle").unwrap();
    index_mail(&conn, "acc1", "Archive", &test_header(2), "needle").unwrap();
    index_mail(&conn, "acc2", "Archive", &test_header(3), "needle").unwrap();
    let found = |account: Option<&str>, mailbox: Option<&str>| -> Vec<u32> {
        let hits = search(&conn, account, "needle", mailbox).unwrap();
        let mut uids: Vec<u32> = hits.iter().map(|h| h.header.uid).collect();
        uids.sort();
        uids
    };
    assert_eq!(found(None, None), vec![1, 2, 3]);
    assert_eq!(found(None, Some("Archive")), vec![2, 3]);
    assert_eq!(found(Some("acc1"), Some("Archive")), vec![2]);
    remove_message(&conn, "acc1", "Archive", 2).unwrap();
    assert_eq!(found(None, None), vec![1, 3]);
}

#[test]
fn a_clock_before_the_epoch_counts_as_zero() {
    assert_eq!(unix_seconds(None), 0);
    assert_eq!(unix_seconds(Some(12)), 12);
}
