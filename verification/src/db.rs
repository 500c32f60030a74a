//! The local cache: message metadata, cached bodies and a full-text index,
//! keyed by account, mailbox and UID.
//!
//! Each operation is a plan: the statements to run, with their bound values.
//! What the statements mean for the tables is stated over [`Tables`].

use vstd::prelude::*;
use vstd::string::*;
use vstd::utf8::*;
use crate::imap::{MailHeader, MailHeaderModel, Attachment, AttachmentModel};
use crate::text;
use crate::text::Text;

verus! {

broadcast use vstd::string::group_string_axioms;

/// How many cached bodies are kept, over all accounts and mailboxes.
pub const MAX_CACHED_BODIES: i64 = 2000;

// ── Statements ──────────────────────────────────────────────────────────────

/// A value bound to a statement's parameter.
#[derive(Debug, PartialEq)]
pub enum SqlValue {
    Null,
    Integer(i64),
    Text(String),
}

/// What a [`SqlValue`] holds.
#[verifier::ext_equal]
pub enum SqlModel {
    Null,
    Integer(i64),
    Text(Text),
}

impl View for SqlValue {
    type V = SqlModel;

    open spec fn view(&self) -> SqlModel {
        match self {
            SqlValue::Null => SqlModel::Null,
            SqlValue::Integer(n) => SqlModel::Integer(*n),
            SqlValue::Text(s) => SqlModel::Text(s@),
        }
    }
}

impl DeepView for SqlValue {
    type V = SqlModel;

    open spec fn deep_view(&self) -> SqlModel {
        self.view()
    }
}

/// A statement that changes the cache.
pub enum Statement {
    /// Insert or update one message's metadata; a known message keeps its size.
    UpsertHeader { account: String, mailbox: String, header: MailHeader },
    /// Insert or update one message's metadata and size.
    UpsertMessage { account: String, mailbox: String, header: MailHeader, size: i64 },
    /// Insert or update one message's cached body.
    UpsertBody { account: String, mailbox: String, uid: u32, body: String, cached_at: i64 },
    /// Take one message out of the full-text index.
    DeleteIndexed { account: String, mailbox: String, uid: u32 },
    /// Put one message into the full-text index.
    InsertIndexed { account: String, mailbox: String, header: MailHeader, body: String },
    /// Delete the oldest cached bodies until at most `max_rows` remain.
    EvictBodies { max_rows: i64 },
    /// Overwrite one message's flags, if it is cached.
    SetFlags { account: String, mailbox: String, uid: u32, flags: Vec<String> },
    /// Delete one message's metadata.
    DeleteMessage { account: String, mailbox: String, uid: u32 },
    /// Delete one message's cached body.
    DeleteBody { account: String, mailbox: String, uid: u32 },
    /// Delete the metadata of a mailbox's messages.
    DeleteMailboxMessages { account: String, mailbox: String },
    /// Delete the cached bodies of a mailbox's messages.
    DeleteMailboxBodies { account: String, mailbox: String },
    /// Take a mailbox's messages out of the full-text index.
    DeleteMailboxIndexed { account: String, mailbox: String },
    /// Remember what the server said of a mailbox.
    UpsertMailbox { account: String, mailbox: String, uid_validity: u32, uid_next: u32 },
}

/// What a [`Statement`] holds.
#[verifier::ext_equal]
pub enum StatementModel {
    UpsertHeader { account: Text, mailbox: Text, header: MailHeaderModel },
    UpsertMessage { account: Text, mailbox: Text, header: MailHeaderModel, size: i64 },
    UpsertBody { account: Text, mailbox: Text, uid: u32, body: Text, cached_at: i64 },
    DeleteIndexed { account: Text, mailbox: Text, uid: u32 },
    InsertIndexed { account: Text, mailbox: Text, header: MailHeaderModel, body: Text },
    EvictBodies { max_rows: i64 },
    SetFlags { account: Text, mailbox: Text, uid: u32, flags: Seq<Text> },
    DeleteMessage { account: Text, mailbox: Text, uid: u32 },
    DeleteBody { account: Text, mailbox: Text, uid: u32 },
    DeleteMailboxMessages { account: Text, mailbox: Text },
    DeleteMailboxBodies { account: Text, mailbox: Text },
    DeleteMailboxIndexed { account: Text, mailbox: Text },
    UpsertMailbox { account: Text, mailbox: Text, uid_validity: u32, uid_next: u32 },
}

impl View for Statement {
    type V = StatementModel;

    open spec fn view(&self) -> StatementModel {
        match self {
            Statement::UpsertHeader { account, mailbox, header } => StatementModel::UpsertHeader {
                account: account@,
                mailbox: mailbox@,
                header: header@,
            },
            Statement::UpsertMessage { account, mailbox, header, size } => StatementModel::UpsertMessage {
                account: account@,
                mailbox: mailbox@,
                header: header@,
                size: *size,
            },
            Statement::UpsertBody { account, mailbox, uid, body, cached_at } => StatementModel::UpsertBody {
                account: account@,
                mailbox: mailbox@,
                uid: *uid,
                body: body@,
                cached_at: *cached_at,
            },
            Statement::DeleteIndexed { account, mailbox, uid } => StatementModel::DeleteIndexed {
                account: account@,
                mailbox: mailbox@,
                uid: *uid,
            },
            Statement::InsertIndexed { account, mailbox, header, body } => StatementModel::InsertIndexed {
                account: account@,
                mailbox: mailbox@,
                header: header@,
                body: body@,
            },
            Statement::EvictBodies { max_rows } => StatementModel::EvictBodies { max_rows: *max_rows },
            Statement::SetFlags { account, mailbox, uid, flags } => StatementModel::SetFlags {
                account: account@,
                mailbox: mailbox@,
                uid: *uid,
                flags: flags.deep_view(),
            },
            Statement::DeleteMessage { account, mailbox, uid } => StatementModel::DeleteMessage {
                account: account@,
                mailbox: mailbox@,
                uid: *uid,
            },
            Statement::DeleteBody { account, mailbox, uid } => StatementModel::DeleteBody {
                account: account@,
                mailbox: mailbox@,
                uid: *uid,
            },
            Statement::DeleteMailboxMessages { account, mailbox } => StatementModel::DeleteMailboxMessages {
                account: account@,
                mailbox: mailbox@,
            },
            Statement::DeleteMailboxBodies { account, mailbox } => StatementModel::DeleteMailboxBodies {
                account: account@,
                mailbox: mailbox@,
            },
            Statement::DeleteMailboxIndexed { account, mailbox } => StatementModel::DeleteMailboxIndexed {
                account: account@,
                mailbox: mailbox@,
            },
            Statement::UpsertMailbox { account, mailbox, uid_validity, uid_next } => StatementModel::UpsertMailbox {
                account: account@,
                mailbox: mailbox@,
                uid_validity: *uid_validity,
                uid_next: *uid_next,
            },
        }
    }
}

impl DeepView for Statement {
    type V = StatementModel;

    open spec fn deep_view(&self) -> StatementModel {
        self.view()
    }
}

/// The tables and the full-text index, created where they do not exist yet.
pub const SCHEMA_SQL: &'static str = "
CREATE TABLE IF NOT EXISTS mailboxes (
    account_id      TEXT NOT NULL,
    mailbox         TEXT NOT NULL,
    uid_validity    INTEGER NOT NULL,
    uid_next        INTEGER NOT NULL,
    highest_modseq  INTEGER NOT NULL DEFAULT 0,
    PRIMARY KEY (account_id, mailbox)
);

CREATE TABLE IF NOT EXISTS messages (
    account_id  TEXT NOT NULL,
    mailbox     TEXT NOT NULL,
    uid         INTEGER NOT NULL,
    subject     TEXT NOT NULL,
    from_addr   TEXT NOT NULL,
    to_addr     TEXT NOT NULL,
    date        TEXT NOT NULL,
    message_id  TEXT NOT NULL DEFAULT '',
    size        INTEGER NOT NULL DEFAULT 0,
    flags       TEXT NOT NULL DEFAULT '',
    thread_key  TEXT,
    PRIMARY KEY (account_id, mailbox, uid)
);

CREATE TABLE IF NOT EXISTS bodies (
    account_id  TEXT NOT NULL,
    mailbox     TEXT NOT NULL,
    uid         INTEGER NOT NULL,
    body        TEXT NOT NULL,
    cached_at   INTEGER NOT NULL,
    PRIMARY KEY (account_id, mailbox, uid)
);

CREATE VIRTUAL TABLE IF NOT EXISTS messages_fts USING fts5(
    account_id UNINDEXED,
    mailbox UNINDEXED,
    uid UNINDEXED,
    subject,
    from_addr,
    to_addr,
    body
);
";

/// Adds the column that tables made before message ids were kept do not have.
pub const ADD_MESSAGE_ID_SQL: &'static str =
    "ALTER TABLE messages ADD COLUMN message_id TEXT NOT NULL DEFAULT ''";

/// Adds the column that tables made before flags were kept do not have.
pub const ADD_FLAGS_SQL: &'static str =
    "ALTER TABLE messages ADD COLUMN flags TEXT NOT NULL DEFAULT ''";

pub const UPSERT_HEADER_SQL: &'static str =
    "INSERT INTO messages (account_id, mailbox, uid, subject, from_addr, to_addr, date, message_id, size, flags)
     VALUES (?1, ?2, ?3, ?4, ?5, ?6, ?7, ?8, 0, ?9)
     ON CONFLICT (account_id, mailbox, uid) DO UPDATE SET
        subject = excluded.subject,
        from_addr = excluded.from_addr,
        to_addr = excluded.to_addr,
        date = excluded.date,
        message_id = excluded.message_id,
        flags = excluded.flags";

pub const UPSERT_MESSAGE_SQL: &'static str =
    "INSERT INTO messages (account_id, mailbox, uid, subject, from_addr, to_addr, date, message_id, size, flags)
     VALUES (?1, ?2, ?3, ?4, ?5, ?6, ?7, ?8, ?9, ?10)
     ON CONFLICT (account_id, mailbox, uid) DO UPDATE SET
        subject = excluded.subject,
        from_addr = excluded.from_addr,
        to_addr = excluded.to_addr,
        date = excluded.date,
        message_id = excluded.message_id,
        size = excluded.size,
        flags = excluded.flags";

pub const UPSERT_BODY_SQL: &'static str =
    "INSERT INTO bodies (account_id, mailbox, uid, body, cached_at)
     VALUES (?1, ?2, ?3, ?4, ?5)
     ON CONFLICT (account_id, mailbox, uid) DO UPDATE SET
        body = excluded.body,
        cached_at = excluded.cached_at";

pub const DELETE_INDEXED_SQL: &'static str =
    "DELETE FROM messages_fts WHERE account_id = ?1 AND mailbox = ?2 AND uid = ?3";

pub const INSERT_INDEXED_SQL: &'static str =
    "INSERT INTO messages_fts (account_id, mailbox, uid, subject, from_addr, to_addr, body)
     VALUES (?1, ?2, ?3, ?4, ?5, ?6, ?7)";

pub const EVICT_BODIES_SQL: &'static str =
    "DELETE FROM bodies WHERE rowid IN (
        SELECT rowid FROM bodies ORDER BY cached_at ASC
        LIMIT MAX(0, (SELECT COUNT(*) FROM bodies) - ?1)
    )";

pub const SET_FLAGS_SQL: &'static str =
    "UPDATE messages SET flags = ?1 WHERE account_id = ?2 AND mailbox = ?3 AND uid = ?4";

pub const DELETE_MESSAGE_SQL: &'static str =
    "DELETE FROM messages WHERE account_id = ?1 AND mailbox = ?2 AND uid = ?3";

pub const DELETE_BODY_SQL: &'static str =
    "DELETE FROM bodies WHERE account_id = ?1 AND mailbox = ?2 AND uid = ?3";

pub const DELETE_MAILBOX_MESSAGES_SQL: &'static str =
    "DELETE FROM messages WHERE account_id = ?1 AND mailbox = ?2";

pub const DELETE_MAILBOX_BODIES_SQL: &'static str =
    "DELETE FROM bodies WHERE account_id = ?1 AND mailbox = ?2";

pub const DELETE_MAILBOX_INDEXED_SQL: &'static str =
    "DELETE FROM messages_fts WHERE account_id = ?1 AND mailbox = ?2";

pub const UPSERT_MAILBOX_SQL: &'static str =
    "INSERT INTO mailboxes (account_id, mailbox, uid_validity, uid_next)
     VALUES (?1, ?2, ?3, ?4)
     ON CONFLICT (account_id, mailbox) DO UPDATE SET
        uid_validity = excluded.uid_validity,
        uid_next = excluded.uid_next";

pub const SEARCH_SQL: &'static str =
    "SELECT m.uid, m.subject, m.from_addr, m.to_addr, m.date, m.message_id, m.flags,
            m.account_id, m.mailbox
     FROM messages_fts f
     JOIN messages m ON m.account_id = f.account_id
        AND m.mailbox = f.mailbox AND m.uid = f.uid
     WHERE (?1 IS NULL OR f.account_id = ?1)
        AND (?2 IS NULL OR f.mailbox = ?2)
        AND messages_fts MATCH ?3
     ORDER BY f.rank";

pub const FETCH_SQL: &'static str =
    "SELECT m.subject, m.from_addr, m.to_addr, m.date, m.message_id, b.body, m.flags
     FROM messages m JOIN bodies b
        ON b.account_id = m.account_id AND b.mailbox = m.mailbox AND b.uid = m.uid
     WHERE m.account_id = ?1 AND m.mailbox = ?2 AND m.uid = ?3";

pub const STATE_SQL: &'static str =
    "SELECT uid_validity, uid_next FROM mailboxes WHERE account_id = ?1 AND mailbox = ?2";

// ── Texts and bound values ──────────────────────────────────────────────────

/// The flags of a message as the cache keeps them: separated by spaces.
pub open spec fn flags_text(flags: Seq<Text>) -> Text {
    text::join(flags, " "@)
}

/// The flags that the cache's flag column stands for.
pub open spec fn flags_of_text(s: Text) -> Seq<Text> {
    text::words(s)
}

/// The cache's flag column for a message.
pub fn flags_column(flags: &Vec<String>) -> (r: String)
    ensures
        r@ == flags_text(flags.deep_view()),
{
    text::join_with(flags, " ")
}

/// Reads the cache's flag column.
pub fn parse_flags_column(s: &str) -> (r: Vec<String>)
    ensures
        r.deep_view() == flags_of_text(s@),
{
    text::split_words(s)
}

impl StatementModel {
    /// The statement's text. It is the same whatever the values are.
    pub open spec fn sql(self) -> Text {
        match self {
            StatementModel::UpsertHeader { .. } => UPSERT_HEADER_SQL@,
            StatementModel::UpsertMessage { .. } => UPSERT_MESSAGE_SQL@,
            StatementModel::UpsertBody { .. } => UPSERT_BODY_SQL@,
            StatementModel::DeleteIndexed { .. } => DELETE_INDEXED_SQL@,
            StatementModel::InsertIndexed { .. } => INSERT_INDEXED_SQL@,
            StatementModel::EvictBodies { .. } => EVICT_BODIES_SQL@,
            StatementModel::SetFlags { .. } => SET_FLAGS_SQL@,
            StatementModel::DeleteMessage { .. } => DELETE_MESSAGE_SQL@,
            StatementModel::DeleteBody { .. } => DELETE_BODY_SQL@,
            StatementModel::DeleteMailboxMessages { .. } => DELETE_MAILBOX_MESSAGES_SQL@,
            StatementModel::DeleteMailboxBodies { .. } => DELETE_MAILBOX_BODIES_SQL@,
            StatementModel::DeleteMailboxIndexed { .. } => DELETE_MAILBOX_INDEXED_SQL@,
            StatementModel::UpsertMailbox { .. } => UPSERT_MAILBOX_SQL@,
        }
    }

    /// The values bound to the statement's parameters, in their order.
    pub open spec fn params(self) -> Seq<SqlModel> {
        match self {
            StatementModel::UpsertHeader { account, mailbox, header } => seq![
                SqlModel::Text(account),
                SqlModel::Text(mailbox),
                SqlModel::Integer(header.uid as i64),
                SqlModel::Text(header.subject),
                SqlModel::Text(header.from),
                SqlModel::Text(header.to),
                SqlModel::Text(header.date),
                SqlModel::Text(header.message_id),
                SqlModel::Text(flags_text(header.flags)),
            ],
            StatementModel::UpsertMessage { account, mailbox, header, size } => seq![
                SqlModel::Text(account),
                SqlModel::Text(mailbox),
                SqlModel::Integer(header.uid as i64),
                SqlModel::Text(header.subject),
                SqlModel::Text(header.from),
                SqlModel::Text(header.to),
                SqlModel::Text(header.date),
                SqlModel::Text(header.message_id),
                SqlModel::Integer(size),
                SqlModel::Text(flags_text(header.flags)),
            ],
            StatementModel::UpsertBody { account, mailbox, uid, body, cached_at } => seq![
                SqlModel::Text(account),
                SqlModel::Text(mailbox),
                SqlModel::Integer(uid as i64),
                SqlModel::Text(body),
                SqlModel::Integer(cached_at),
            ],
            StatementModel::DeleteIndexed { account, mailbox, uid } => seq![
                SqlModel::Text(account),
                SqlModel::Text(mailbox),
                SqlModel::Integer(uid as i64),
            ],
            StatementModel::InsertIndexed { account, mailbox, header, body } => seq![
                SqlModel::Text(account),
                SqlModel::Text(mailbox),
                SqlModel::Integer(header.uid as i64),
                SqlModel::Text(header.subject),
                SqlModel::Text(header.from),
                SqlModel::Text(header.to),
                SqlModel::Text(body),
            ],
            StatementModel::EvictBodies { max_rows } => seq![SqlModel::Integer(max_rows)],
            StatementModel::SetFlags { account, mailbox, uid, flags } => seq![
                SqlModel::Text(flags_text(flags)),
                SqlModel::Text(account),
                SqlModel::Text(mailbox),
                SqlModel::Integer(uid as i64),
            ],
            StatementModel::DeleteMessage { account, mailbox, uid } => seq![
                SqlModel::Text(account),
                SqlModel::Text(mailbox),
                SqlModel::Integer(uid as i64),
            ],
            StatementModel::DeleteBody { account, mailbox, uid } => seq![
                SqlModel::Text(account),
                SqlModel::Text(mailbox),
                SqlModel::Integer(uid as i64),
            ],
            StatementModel::DeleteMailboxMessages { account, mailbox } => seq![
                SqlModel::Text(account),
                SqlModel::Text(mailbox),
            ],
            StatementModel::DeleteMailboxBodies { account, mailbox } => seq![
                SqlModel::Text(account),
                SqlModel::Text(mailbox),
            ],
            StatementModel::DeleteMailboxIndexed { account, mailbox } => seq![
                SqlModel::Text(account),
                SqlModel::Text(mailbox),
            ],
            StatementModel::UpsertMailbox { account, mailbox, uid_validity, uid_next } => seq![
                SqlModel::Text(account),
                SqlModel::Text(mailbox),
                SqlModel::Integer(uid_validity as i64),
                SqlModel::Integer(uid_next as i64),
            ],
        }
    }
}

impl Statement {
    /// The statement's text.
    pub fn sql(&self) -> (r: &'static str)
        ensures
            r@ == self@.sql(),
    {
        match self {
            Statement::UpsertHeader { .. } => UPSERT_HEADER_SQL,
            Statement::UpsertMessage { .. } => UPSERT_MESSAGE_SQL,
            Statement::UpsertBody { .. } => UPSERT_BODY_SQL,
            Statement::DeleteIndexed { .. } => DELETE_INDEXED_SQL,
            Statement::InsertIndexed { .. } => INSERT_INDEXED_SQL,
            Statement::EvictBodies { .. } => EVICT_BODIES_SQL,
            Statement::SetFlags { .. } => SET_FLAGS_SQL,
            Statement::DeleteMessage { .. } => DELETE_MESSAGE_SQL,
            Statement::DeleteBody { .. } => DELETE_BODY_SQL,
            Statement::DeleteMailboxMessages { .. } => DELETE_MAILBOX_MESSAGES_SQL,
            Statement::DeleteMailboxBodies { .. } => DELETE_MAILBOX_BODIES_SQL,
            Statement::DeleteMailboxIndexed { .. } => DELETE_MAILBOX_INDEXED_SQL,
            Statement::UpsertMailbox { .. } => UPSERT_MAILBOX_SQL,
        }
    }

    /// The values bound to the statement's parameters, in their order.
    pub fn params(&self) -> (r: Vec<SqlValue>)
        ensures
            r.deep_view() == self@.params(),
    {
        let r = match self {
            Statement::UpsertHeader { account, mailbox, header } => vec![
                SqlValue::Text(account.clone()),
                SqlValue::Text(mailbox.clone()),
                SqlValue::Integer(header.uid as i64),
                SqlValue::Text(header.subject.clone()),
                SqlValue::Text(header.from.clone()),
                SqlValue::Text(header.to.clone()),
                SqlValue::Text(header.date.clone()),
                SqlValue::Text(header.message_id.clone()),
                SqlValue::Text(flags_column(&header.flags)),
            ],
            Statement::UpsertMessage { account, mailbox, header, size } => vec![
                SqlValue::Text(account.clone()),
                SqlValue::Text(mailbox.clone()),
                SqlValue::Integer(header.uid as i64),
                SqlValue::Text(header.subject.clone()),
                SqlValue::Text(header.from.clone()),
                SqlValue::Text(header.to.clone()),
                SqlValue::Text(header.date.clone()),
                SqlValue::Text(header.message_id.clone()),
                SqlValue::Integer(*size),
                SqlValue::Text(flags_column(&header.flags)),
            ],
            Statement::UpsertBody { account, mailbox, uid, body, cached_at } => vec![
                SqlValue::Text(account.clone()),
                SqlValue::Text(mailbox.clone()),
                SqlValue::Integer(*uid as i64),
                SqlValue::Text(body.clone()),
                SqlValue::Integer(*cached_at),
            ],
            Statement::DeleteIndexed { account, mailbox, uid } => key_params(account, mailbox, *uid),
            Statement::InsertIndexed { account, mailbox, header, body } => vec![
                SqlValue::Text(account.clone()),
                SqlValue::Text(mailbox.clone()),
                SqlValue::Integer(header.uid as i64),
                SqlValue::Text(header.subject.clone()),
                SqlValue::Text(header.from.clone()),
                SqlValue::Text(header.to.clone()),
                SqlValue::Text(body.clone()),
            ],
            Statement::EvictBodies { max_rows } => vec![SqlValue::Integer(*max_rows)],
            Statement::SetFlags { account, mailbox, uid, flags } => vec![
                SqlValue::Text(flags_column(flags)),
                SqlValue::Text(account.clone()),
                SqlValue::Text(mailbox.clone()),
                SqlValue::Integer(*uid as i64),
            ],
            Statement::DeleteMessage { account, mailbox, uid } => key_params(account, mailbox, *uid),
            Statement::DeleteBody { account, mailbox, uid } => key_params(account, mailbox, *uid),
            Statement::DeleteMailboxMessages { account, mailbox } => vec![
                SqlValue::Text(account.clone()),
                SqlValue::Text(mailbox.clone()),
            ],
            Statement::DeleteMailboxBodies { account, mailbox } => vec![
                SqlValue::Text(account.clone()),
                SqlValue::Text(mailbox.clone()),
            ],
            Statement::DeleteMailboxIndexed { account, mailbox } => vec![
                SqlValue::Text(account.clone()),
                SqlValue::Text(mailbox.clone()),
            ],
            Statement::UpsertMailbox { account, mailbox, uid_validity, uid_next } => vec![
                SqlValue::Text(account.clone()),
                SqlValue::Text(mailbox.clone()),
                SqlValue::Integer(*uid_validity as i64),
                SqlValue::Integer(*uid_next as i64),
            ],
        };
        assert(r.deep_view() =~= self@.params());
        r
    }
}

/// The bound values of a statement about one message.
fn key_params(account: &String, mailbox: &String, uid: u32) -> (r: Vec<SqlValue>)
    ensures
        r.deep_view() == seq![
            SqlModel::Text(account@),
            SqlModel::Text(mailbox@),
            SqlModel::Integer(uid as i64),
        ],
{
    let r = vec![
        SqlValue::Text(account.clone()),
        SqlValue::Text(mailbox.clone()),
        SqlValue::Integer(uid as i64),
    ];
    assert(r.deep_view() =~= seq![
        SqlModel::Text(account@),
        SqlModel::Text(mailbox@),
        SqlModel::Integer(uid as i64),
    ]);
    r
}

// ── Plans ───────────────────────────────────────────────────────────────────

/// How a mailbox's cache is brought up to date.
#[derive(Debug, Clone, Copy, PartialEq, Eq, Structural)]
pub enum SyncPlan {
    /// The cache has everything the server has.
    UpToDate,
    /// Messages from `first_new_uid` on may be missing from the cache.
    FetchFrom { first_new_uid: u32 },
    /// The server has reassigned UIDs: what the cache had for the mailbox
    /// means nothing any more.
    Resync,
}

/// What the cache needs, given what was stored for a mailbox the last time
/// (`None` the first time) and what the server reports now.
pub open spec fn decision(previous: Option<(u32, u32)>, uid_validity: u32, uid_next: u32) -> SyncPlan {
    match previous {
        None => if uid_next <= 1 {
            SyncPlan::UpToDate
        } else {
            SyncPlan::FetchFrom { first_new_uid: 1 }
        },
        Some((validity, next)) => if validity != uid_validity {
            SyncPlan::Resync
        } else if uid_next > next {
            SyncPlan::FetchFrom { first_new_uid: next }
        } else {
            SyncPlan::UpToDate
        },
    }
}

/// What the cache needs, given what was stored the last time and what the
/// server reports now.
pub fn sync_decision(
    previous: Option<(u32, u32)>,
    server_uid_validity: u32,
    server_uid_next: u32,
) -> (r: SyncPlan)
    ensures
        r == decision(previous, server_uid_validity, server_uid_next),
{
    match previous {
        None => {
            if server_uid_next <= 1 {
                SyncPlan::UpToDate
            } else {
                SyncPlan::FetchFrom { first_new_uid: 1 }
            }
        },
        Some((validity, next)) => {
            if validity != server_uid_validity {
                SyncPlan::Resync
            } else if server_uid_next > next {
                SyncPlan::FetchFrom { first_new_uid: next }
            } else {
                SyncPlan::UpToDate
            }
        },
    }
}

/// The size of a body in bytes, as the cache keeps it.
pub open spec fn size_of_body(body: Text) -> i64 {
    (encode_utf8(body).len() as usize) as i64
}

/// The plan that caches one message with its body.
pub open spec fn index_mail_plan(
    account: Text,
    mailbox: Text,
    header: MailHeaderModel,
    body: Text,
    cached_at: i64,
) -> Seq<StatementModel> {
    seq![
        StatementModel::UpsertMessage { account, mailbox, header, size: size_of_body(body) },
        StatementModel::UpsertBody { account, mailbox, uid: header.uid, body, cached_at },
        StatementModel::DeleteIndexed { account, mailbox, uid: header.uid },
        StatementModel::InsertIndexed { account, mailbox, header, body },
        StatementModel::EvictBodies { max_rows: MAX_CACHED_BODIES },
    ]
}

/// The plan that caches the metadata of several messages.
pub open spec fn index_headers_plan(
    account: Text,
    mailbox: Text,
    headers: Seq<MailHeaderModel>,
) -> Seq<StatementModel> {
    Seq::new(
        headers.len(),
        |i: int| StatementModel::UpsertHeader { account, mailbox, header: headers[i] },
    )
}

/// The plan that mirrors a message's flags.
pub open spec fn update_flags_plan(
    account: Text,
    mailbox: Text,
    uid: u32,
    flags: Seq<Text>,
) -> Seq<StatementModel> {
    seq![StatementModel::SetFlags { account, mailbox, uid, flags }]
}

/// The plan that drops one message from the cache.
pub open spec fn remove_message_plan(account: Text, mailbox: Text, uid: u32) -> Seq<StatementModel> {
    seq![
        StatementModel::DeleteMessage { account, mailbox, uid },
        StatementModel::DeleteBody { account, mailbox, uid },
        StatementModel::DeleteIndexed { account, mailbox, uid },
    ]
}

/// The plan that records what the server said of a mailbox, once the decision
/// is made: a resync first drops everything cached for it.
pub open spec fn report_plan(
    account: Text,
    mailbox: Text,
    uid_validity: u32,
    uid_next: u32,
    plan: SyncPlan,
) -> Seq<StatementModel> {
    let remember = StatementModel::UpsertMailbox { account, mailbox, uid_validity, uid_next };
    if plan == SyncPlan::Resync {
        seq![
            StatementModel::DeleteMailboxMessages { account, mailbox },
            StatementModel::DeleteMailboxBodies { account, mailbox },
            StatementModel::DeleteMailboxIndexed { account, mailbox },
            remember,
        ]
    } else {
        seq![remember]
    }
}

/// Caches one message's metadata, body and index entry, and keeps the number
/// of cached bodies within its limit.
pub fn index_mail(account: &str, mailbox: &str, header: &MailHeader, body: &str, cached_at: i64) -> (r:
    Vec<Statement>)
    ensures
        r.deep_view() == index_mail_plan(account@, mailbox@, header@, body@, cached_at),
{
    let size: usize = body.len();
    let r = vec![
        Statement::UpsertMessage {
            account: account.to_owned(),
            mailbox: mailbox.to_owned(),
            header: header.clone(),
            size: size as i64,
        },
        Statement::UpsertBody {
            account: account.to_owned(),
            mailbox: mailbox.to_owned(),
            uid: header.uid,
            body: body.to_owned(),
            cached_at,
        },
        Statement::DeleteIndexed {
            account: account.to_owned(),
            mailbox: mailbox.to_owned(),
            uid: header.uid,
        },
        Statement::InsertIndexed {
            account: account.to_owned(),
            mailbox: mailbox.to_owned(),
            header: header.clone(),
            body: body.to_owned(),
        },
        Statement::EvictBodies { max_rows: MAX_CACHED_BODIES },
    ];
    assert(r.deep_view() =~= index_mail_plan(account@, mailbox@, header@, body@, cached_at));
    r
}

/// Caches the metadata of several messages. Their bodies and index entries
/// stay as they are.
pub fn index_headers(account: &str, mailbox: &str, headers: &Vec<MailHeader>) -> (r: Vec<Statement>)
    ensures
        r.deep_view() == index_headers_plan(account@, mailbox@, headers.deep_view()),
{
    let ghost all = index_headers_plan(account@, mailbox@, headers.deep_view());
    let mut r: Vec<Statement> = Vec::new();
    let mut i: usize = 0;
    assert(r.deep_view() =~= all.take(0));
    while i < headers.len()
        invariant
            i <= headers@.len(),
            all == index_headers_plan(account@, mailbox@, headers.deep_view()),
            r.deep_view() == all.take(i as int),
        decreases headers@.len() - i,
    {
        let ghost held = r.deep_view();
        r.push(
            Statement::UpsertHeader {
                account: account.to_owned(),
                mailbox: mailbox.to_owned(),
                header: headers[i].clone(),
            },
        );
        assert(r.deep_view() =~= held.push(all[i as int]));
        assert(all.take(i + 1) =~= held.push(all[i as int]));
        i += 1;
    }
    assert(all.take(all.len() as int) =~= all);
    r
}

/// Overwrites the cached flags of one message, if it is cached at all.
pub fn update_flags(account: &str, mailbox: &str, uid: u32, flags: &Vec<String>) -> (r: Vec<Statement>)
    ensures
        r.deep_view() == update_flags_plan(account@, mailbox@, uid, flags.deep_view()),
{
    let r = vec![
        Statement::SetFlags {
            account: account.to_owned(),
            mailbox: mailbox.to_owned(),
            uid,
            flags: crate::imap::copy_strings(flags),
        },
    ];
    assert(r.deep_view() =~= update_flags_plan(account@, mailbox@, uid, flags.deep_view()));
    r
}

/// Drops a message from every table that might hold it.
pub fn remove_message(account: &str, mailbox: &str, uid: u32) -> (r: Vec<Statement>)
    ensures
        r.deep_view() == remove_message_plan(account@, mailbox@, uid),
{
    let r = vec![
        Statement::DeleteMessage { account: account.to_owned(), mailbox: mailbox.to_owned(), uid },
        Statement::DeleteBody { account: account.to_owned(), mailbox: mailbox.to_owned(), uid },
        Statement::DeleteIndexed { account: account.to_owned(), mailbox: mailbox.to_owned(), uid },
    ];
    assert(r.deep_view() =~= remove_message_plan(account@, mailbox@, uid));
    r
}

/// Deletes the oldest cached bodies until at most `max_rows` remain.
pub fn evict_lru_bodies(max_rows: i64) -> (r: Vec<Statement>)
    ensures
        r.deep_view() == seq![StatementModel::EvictBodies { max_rows }],
{
    let r = vec![Statement::EvictBodies { max_rows }];
    assert(r.deep_view() =~= seq![StatementModel::EvictBodies { max_rows }]);
    r
}

/// Decides how to bring a mailbox's cache up to date and what to record, given
/// what was stored for it the last time.
pub fn report_mailbox_state(
    account: &str,
    mailbox: &str,
    uid_validity: u32,
    uid_next: u32,
    previous: Option<(u32, u32)>,
) -> (r: (SyncPlan, Vec<Statement>))
    ensures
        r.0 == decision(previous, uid_validity, uid_next),
        r.1.deep_view() == report_plan(account@, mailbox@, uid_validity, uid_next, r.0),
{
    let plan = sync_decision(previous, uid_validity, uid_next);
    let mut r: Vec<Statement> = Vec::new();
    if plan == SyncPlan::Resync {
        r.push(
            Statement::DeleteMailboxMessages {
                account: account.to_owned(),
                mailbox: mailbox.to_owned(),
            },
        );
        r.push(
            Statement::DeleteMailboxBodies {
                account: account.to_owned(),
                mailbox: mailbox.to_owned(),
            },
        );
        r.push(
            Statement::DeleteMailboxIndexed {
                account: account.to_owned(),
                mailbox: mailbox.to_owned(),
            },
        );
    }
    r.push(
        Statement::UpsertMailbox {
            account: account.to_owned(),
            mailbox: mailbox.to_owned(),
            uid_validity,
            uid_next,
        },
    );
    assert(r.deep_view() =~= report_plan(account@, mailbox@, uid_validity, uid_next, plan));
    (plan, r)
}

/// Whether adding a column may count as done although it failed: the column
/// was already there.
pub fn column_already_there(error: &str) -> (r: bool)
    ensures
        r == text::contains(error@, "duplicate column name"@),
{
    text::has(error, "duplicate column name")
}

/// Whether the database can be used once a column was to be added, by what the
/// database said: that the column was already there counts as done, and any
/// other failure stands.
pub open spec fn migrated(outcome: Result<(), Text>) -> Result<(), Text> {
    match outcome {
        Ok(()) => Ok(()),
        Err(e) => if text::contains(e, "duplicate column name"@) {
            Ok(())
        } else {
            Err(e)
        },
    }
}

/// Whether the database can be used once a column was to be added, by what the
/// database said.
pub fn after_migration(outcome: Result<(), &str>) -> (r: Result<(), String>)
    ensures
        match (r, outcome) {
            (Ok(()), Ok(())) => true,
            (Ok(()), Err(e)) => migrated(Err(e@)) is Ok,
            (Err(x), Err(e)) => migrated(Err(e@)) == Err::<(), Text>(x@),
            (Err(_), Ok(())) => false,
        },
{
    match outcome {
        Ok(()) => Ok(()),
        Err(e) => {
            if column_already_there(e) {
                Ok(())
            } else {
                Err(e.to_owned())
            }
        },
    }
}

/// Seconds since the epoch as the cache keeps them; a clock before the epoch
/// counts as zero.
pub fn unix_seconds(since_epoch: Option<u64>) -> (r: i64)
    ensures
        r == (match since_epoch {
            Some(s) => s as i64,
            None => 0i64,
        }),
{
    match since_epoch {
        Some(s) => s as i64,
        None => 0,
    }
}

// ── Queries and their rows ──────────────────────────────────────────────────

/// A question to the cache.
#[allow(inconsistent_fields)]
pub enum Query {
    /// Full-text search, in one account and mailbox or in all of them.
    Search { account: Option<String>, mailbox: Option<String>, query: String },
    /// One message with its cached body.
    Fetch { account: String, mailbox: String, uid: u32 },
    /// What was stored for a mailbox the last time.
    State { account: String, mailbox: String },
}

/// What a [`Query`] holds.
#[allow(inconsistent_fields)]
#[verifier::ext_equal]
pub enum QueryModel {
    Search { account: Option<Text>, mailbox: Option<Text>, query: Text },
    Fetch { account: Text, mailbox: Text, uid: u32 },
    State { account: Text, mailbox: Text },
}

impl View for Query {
    type V = QueryModel;

    open spec fn view(&self) -> QueryModel {
        match self {
            Query::Search { account, mailbox, query } => QueryModel::Search {
                account: account.deep_view(),
                mailbox: mailbox.deep_view(),
                query: query@,
            },
            Query::Fetch { account, mailbox, uid } => QueryModel::Fetch {
                account: account@,
                mailbox: mailbox@,
                uid: *uid,
            },
            Query::State { account, mailbox } => QueryModel::State {
                account: account@,
                mailbox: mailbox@,
            },
        }
    }
}

/// A text to bind, or nothing.
pub open spec fn bound(s: Option<Text>) -> SqlModel {
    match s {
        Some(t) => SqlModel::Text(t),
        None => SqlModel::Null,
    }
}

impl QueryModel {
    /// The query's text. It is the same whatever the values are.
    pub open spec fn sql(self) -> Text {
        match self {
            QueryModel::Search { .. } => SEARCH_SQL@,
            QueryModel::Fetch { .. } => FETCH_SQL@,
            QueryModel::State { .. } => STATE_SQL@,
        }
    }

    /// The values bound to the query's parameters, in their order.
    pub open spec fn params(self) -> Seq<SqlModel> {
        match self {
            QueryModel::Search { account, mailbox, query } => seq![
                bound(account),
                bound(mailbox),
                SqlModel::Text(query),
            ],
            QueryModel::Fetch { account, mailbox, uid } => seq![
                SqlModel::Text(account),
                SqlModel::Text(mailbox),
                SqlModel::Integer(uid as i64),
            ],
            QueryModel::State { account, mailbox } => seq![
                SqlModel::Text(account),
                SqlModel::Text(mailbox),
            ],
        }
    }
}

/// A string to bind, or nothing.
fn bind_option(s: &Option<String>) -> (r: SqlValue)
    ensures
        r@ == bound(s.deep_view()),
{
    match s {
        Some(t) => SqlValue::Text(t.clone()),
        None => SqlValue::Null,
    }
}

impl Query {
    /// The query's text.
    pub fn sql(&self) -> (r: &'static str)
        ensures
            r@ == self@.sql(),
    {
        match self {
            Query::Search { .. } => SEARCH_SQL,
            Query::Fetch { .. } => FETCH_SQL,
            Query::State { .. } => STATE_SQL,
        }
    }

    /// The values bound to the query's parameters, in their order.
    pub fn params(&self) -> (r: Vec<SqlValue>)
        ensures
            r.deep_view() == self@.params(),
    {
        let r = match self {
            Query::Search { account, mailbox, query } => vec![
                bind_option(account),
                bind_option(mailbox),
                SqlValue::Text(query.clone()),
            ],
            Query::Fetch { account, mailbox, uid } => key_params(account, mailbox, *uid),
            Query::State { account, mailbox } => vec![
                SqlValue::Text(account.clone()),
                SqlValue::Text(mailbox.clone()),
            ],
        };
        assert(r.deep_view() =~= self@.params());
        r
    }
}

/// The columns of a message's metadata as a query hands them back.
pub struct MessageColumns {
    pub uid: u32,
    pub subject: String,
    pub from: String,
    pub to: String,
    pub date: String,
    pub message_id: String,
    pub flags: String,
}

/// The header that a message's columns stand for.
pub open spec fn header_of_columns(row: MessageColumns) -> MailHeaderModel {
    MailHeaderModel {
        uid: row.uid,
        subject: row.subject@,
        from: row.from@,
        to: row.to@,
        date: row.date@,
        message_id: row.message_id@,
        flags: flags_of_text(row.flags@),
    }
}

/// Reads a message's columns.
pub fn read_header(row: MessageColumns) -> (r: MailHeader)
    ensures
        r@ == header_of_columns(row),
{
    MailHeader {
        uid: row.uid,
        flags: parse_flags_column(row.flags.as_str()),
        subject: row.subject,
        from: row.from,
        to: row.to,
        date: row.date,
        message_id: row.message_id,
    }
}

/// One search result, with where it lives.
pub struct SearchHit {
    pub account_id: String,
    pub mailbox: String,
    pub header: MailHeader,
}

/// What a [`SearchHit`] holds.
#[verifier::ext_equal]
pub struct SearchHitModel {
    pub account_id: Text,
    pub mailbox: Text,
    pub header: MailHeaderModel,
}

impl View for SearchHit {
    type V = SearchHitModel;

    open spec fn view(&self) -> SearchHitModel {
        SearchHitModel {
            account_id: self.account_id@,
            mailbox: self.mailbox@,
            header: self.header@,
        }
    }
}

impl DeepView for SearchHit {
    type V = SearchHitModel;

    open spec fn deep_view(&self) -> SearchHitModel {
        self.view()
    }
}

/// The search result that a row stands for.
pub open spec fn hit_of_columns(account_id: Text, mailbox: Text, row: MessageColumns) -> SearchHitModel {
    SearchHitModel { account_id, mailbox, header: header_of_columns(row) }
}

/// Reads one row of a search.
pub fn read_hit(account_id: String, mailbox: String, row: MessageColumns) -> (r: SearchHit)
    ensures
        r@ == hit_of_columns(account_id@, mailbox@, row),
{
    SearchHit { account_id, mailbox, header: read_header(row) }
}

// ── Commands, events and the steps between them ─────────────────────────────

/// What the program asks of the cache.
#[allow(inconsistent_fields)]
pub enum DbCommand {
    /// Cache one message with its body. The cache keeps text only, so the
    /// attachments are not stored.
    IndexMail {
        account_id: String,
        mailbox: String,
        header: MailHeader,
        body: String,
        attachments: Vec<Attachment>,
    },
    /// Cache the metadata of messages whose bodies are not known.
    IndexHeaders { account_id: String, mailbox: String, headers: Vec<MailHeader> },
    /// Full-text search; without an account, in all of them.
    Search { account_id: Option<String>, query: String, mailbox: Option<String> },
    /// Read one message with its cached body.
    FetchMail { account_id: String, mailbox: String, uid: u32 },
    /// Report what the server said of a mailbox.
    ReportMailboxState { account_id: String, mailbox: String, uid_validity: u32, uid_next: u32 },
    /// Mirror a message's flags.
    UpdateFlags { account_id: String, mailbox: String, uid: u32, flags: Vec<String> },
    /// Drop a message that has moved away.
    RemoveMessage { account_id: String, mailbox: String, uid: u32 },
}

/// What a [`DbCommand`] holds.
#[allow(inconsistent_fields)]
#[verifier::ext_equal]
pub enum DbCommandModel {
    IndexMail {
        account_id: Text,
        mailbox: Text,
        header: MailHeaderModel,
        body: Text,
        attachments: Seq<AttachmentModel>,
    },
    IndexHeaders { account_id: Text, mailbox: Text, headers: Seq<MailHeaderModel> },
    Search { account_id: Option<Text>, query: Text, mailbox: Option<Text> },
    FetchMail { account_id: Text, mailbox: Text, uid: u32 },
    ReportMailboxState { account_id: Text, mailbox: Text, uid_validity: u32, uid_next: u32 },
    UpdateFlags { account_id: Text, mailbox: Text, uid: u32, flags: Seq<Text> },
    RemoveMessage { account_id: Text, mailbox: Text, uid: u32 },
}

impl View for DbCommand {
    type V = DbCommandModel;

    open spec fn view(&self) -> DbCommandModel {
        match self {
            DbCommand::IndexMail { account_id, mailbox, header, body, attachments } => DbCommandModel::IndexMail {
                account_id: account_id@,
                mailbox: mailbox@,
                header: header@,
                body: body@,
                attachments: attachments.deep_view(),
            },
            DbCommand::IndexHeaders { account_id, mailbox, headers } => DbCommandModel::IndexHeaders {
                account_id: account_id@,
                mailbox: mailbox@,
                headers: headers.deep_view(),
            },
            DbCommand::Search { account_id, query, mailbox } => DbCommandModel::Search {
                account_id: account_id.deep_view(),
                query: query@,
                mailbox: mailbox.deep_view(),
            },
            DbCommand::FetchMail { account_id, mailbox, uid } => DbCommandModel::FetchMail {
                account_id: account_id@,
                mailbox: mailbox@,
                uid: *uid,
            },
            DbCommand::ReportMailboxState { account_id, mailbox, uid_validity, uid_next } => DbCommandModel::ReportMailboxState {
                account_id: account_id@,
                mailbox: mailbox@,
                uid_validity: *uid_validity,
                uid_next: *uid_next,
            },
            DbCommand::UpdateFlags { account_id, mailbox, uid, flags } => DbCommandModel::UpdateFlags {
                account_id: account_id@,
                mailbox: mailbox@,
                uid: *uid,
                flags: flags.deep_view(),
            },
            DbCommand::RemoveMessage { account_id, mailbox, uid } => DbCommandModel::RemoveMessage {
                account_id: account_id@,
                mailbox: mailbox@,
                uid: *uid,
            },
        }
    }
}

impl DeepView for DbCommand {
    type V = DbCommandModel;

    open spec fn deep_view(&self) -> DbCommandModel {
        self.view()
    }
}

/// What the cache answers.
pub enum DbEvent {
    SearchResult { hits: Vec<SearchHit> },
    MailFetched { header: MailHeader, body: String, attachments: Vec<Attachment> },
    /// A message's body is not cached. Names the UID, so that the message can
    /// be fetched from the server instead.
    MailFetchFailed { uid: u32, error: String },
    SyncPlan { account_id: String, mailbox: String, plan: SyncPlan },
    Error(String),
}

/// What a [`DbEvent`] holds.
#[verifier::ext_equal]
pub enum DbEventModel {
    SearchResult { hits: Seq<SearchHitModel> },
    MailFetched { header: MailHeaderModel, body: Text, attachments: Seq<AttachmentModel> },
    MailFetchFailed { uid: u32, error: Text },
    SyncPlan { account_id: Text, mailbox: Text, plan: SyncPlan },
    Error(Text),
}

impl View for DbEvent {
    type V = DbEventModel;

    open spec fn view(&self) -> DbEventModel {
        match self {
            DbEvent::SearchResult { hits } => DbEventModel::SearchResult { hits: hits.deep_view() },
            DbEvent::MailFetched { header, body, attachments } => DbEventModel::MailFetched {
                header: header@,
                body: body@,
                attachments: attachments.deep_view(),
            },
            DbEvent::MailFetchFailed { uid, error } => DbEventModel::MailFetchFailed {
                uid: *uid,
                error: error@,
            },
            DbEvent::SyncPlan { account_id, mailbox, plan } => DbEventModel::SyncPlan {
                account_id: account_id@,
                mailbox: mailbox@,
                plan: *plan,
            },
            DbEvent::Error(e) => DbEventModel::Error(e@),
        }
    }
}

/// What to do when the statements of a plan have run.
pub enum Followup {
    /// Say nothing, unless one of them failed.
    Nothing,
    /// Tell what was decided for the mailbox.
    Report { account_id: String, mailbox: String, plan: SyncPlan },
}

/// What a query is for.
pub enum Question {
    Search,
    Fetch { uid: u32 },
    Report { account_id: String, mailbox: String, uid_validity: u32, uid_next: u32 },
}

/// The next thing to do with the database.
pub enum DbStep {
    Run { statements: Vec<Statement>, then_do: Followup },
    Ask { query: Query, purpose: Question },
}

/// What a [`DbStep`] holds.
#[verifier::ext_equal]
pub enum DbStepModel {
    Run { statements: Seq<StatementModel> },
    RunAndReport { statements: Seq<StatementModel>, account_id: Text, mailbox: Text, plan: SyncPlan },
    Search { query: QueryModel },
    Fetch { query: QueryModel, uid: u32 },
    AskState { query: QueryModel, account_id: Text, mailbox: Text, uid_validity: u32, uid_next: u32 },
}

impl View for DbStep {
    type V = DbStepModel;

    open spec fn view(&self) -> DbStepModel {
        match self {
            DbStep::Run { statements, then_do } => match then_do {
                Followup::Nothing => DbStepModel::Run { statements: statements.deep_view() },
                Followup::Report { account_id, mailbox, plan } => DbStepModel::RunAndReport {
                    statements: statements.deep_view(),
                    account_id: account_id@,
                    mailbox: mailbox@,
                    plan: *plan,
                },
            },
            DbStep::Ask { query, purpose } => match purpose {
                Question::Search => DbStepModel::Search { query: query@ },
                Question::Fetch { uid } => DbStepModel::Fetch { query: query@, uid: *uid },
                Question::Report { account_id, mailbox, uid_validity, uid_next } => DbStepModel::AskState {
                    query: query@,
                    account_id: account_id@,
                    mailbox: mailbox@,
                    uid_validity: *uid_validity,
                    uid_next: *uid_next,
                },
            },
        }
    }
}

/// The first step of a command at the time `now`.
pub open spec fn first_step(cmd: DbCommandModel, now: i64) -> DbStepModel {
    match cmd {
        DbCommandModel::IndexMail { account_id, mailbox, header, body, attachments } => DbStepModel::Run {
            statements: index_mail_plan(account_id, mailbox, header, body, now),
        },
        DbCommandModel::IndexHeaders { account_id, mailbox, headers } => DbStepModel::Run {
            statements: index_headers_plan(account_id, mailbox, headers),
        },
        DbCommandModel::Search { account_id, query, mailbox } => DbStepModel::Search {
            query: QueryModel::Search { account: account_id, mailbox, query },
        },
        DbCommandModel::FetchMail { account_id, mailbox, uid } => DbStepModel::Fetch {
            query: QueryModel::Fetch { account: account_id, mailbox, uid },
            uid,
        },
        DbCommandModel::ReportMailboxState { account_id, mailbox, uid_validity, uid_next } => DbStepModel::AskState {
            query: QueryModel::State { account: account_id, mailbox },
            account_id,
            mailbox,
            uid_validity,
            uid_next,
        },
        DbCommandModel::UpdateFlags { account_id, mailbox, uid, flags } => DbStepModel::Run {
            statements: update_flags_plan(account_id, mailbox, uid, flags),
        },
        DbCommandModel::RemoveMessage { account_id, mailbox, uid } => DbStepModel::Run {
            statements: remove_message_plan(account_id, mailbox, uid),
        },
    }
}

/// Begins a command at the time `now`.
pub fn begin(cmd: DbCommand, now: i64) -> (r: DbStep)
    ensures
        r@ == first_step(cmd@, now),
{
    match cmd {
        DbCommand::IndexMail { account_id, mailbox, header, body, attachments: _ } => DbStep::Run {
            statements: index_mail(
                account_id.as_str(),
                mailbox.as_str(),
                &header,
                body.as_str(),
                now,
            ),
            then_do: Followup::Nothing,
        },
        DbCommand::IndexHeaders { account_id, mailbox, headers } => DbStep::Run {
            statements: index_headers(account_id.as_str(), mailbox.as_str(), &headers),
            then_do: Followup::Nothing,
        },
        DbCommand::Search { account_id, query, mailbox } => DbStep::Ask {
            query: Query::Search { account: account_id, mailbox, query },
            purpose: Question::Search,
        },
        DbCommand::FetchMail { account_id, mailbox, uid } => DbStep::Ask {
            query: Query::Fetch { account: account_id, mailbox, uid },
            purpose: Question::Fetch { uid },
        },
        DbCommand::ReportMailboxState { account_id, mailbox, uid_validity, uid_next } => DbStep::Ask {
            query: Query::State { account: account_id.clone(), mailbox: mailbox.clone() },
            purpose: Question::Report { account_id, mailbox, uid_validity, uid_next },
        },
        DbCommand::UpdateFlags { account_id, mailbox, uid, flags } => DbStep::Run {
            statements: update_flags(account_id.as_str(), mailbox.as_str(), uid, &flags),
            then_do: Followup::Nothing,
        },
        DbCommand::RemoveMessage { account_id, mailbox, uid } => DbStep::Run {
            statements: remove_message(account_id.as_str(), mailbox.as_str(), uid),
            then_do: Followup::Nothing,
        },
    }
}

/// The answer once the statements of a plan have run or one has failed.
pub open spec fn run_answer(then_do: Followup, result: Result<(), String>) -> Option<DbEventModel> {
    match (result, then_do) {
        (Err(e), _) => Some(DbEventModel::Error(e@)),
        (Ok(()), Followup::Nothing) => None,
        (Ok(()), Followup::Report { account_id, mailbox, plan }) => Some(
            DbEventModel::SyncPlan { account_id: account_id@, mailbox: mailbox@, plan },
        ),
    }
}

/// The answer to a search.
pub open spec fn search_answer(result: Result<Vec<SearchHit>, String>) -> DbEventModel {
    match result {
        Ok(hits) => DbEventModel::SearchResult { hits: hits.deep_view() },
        Err(e) => DbEventModel::Error(e@),
    }
}

/// The answer to a fetch; the cache keeps no attachments.
pub open spec fn fetch_answer(uid: u32, result: Result<(MessageColumns, String), String>) -> DbEventModel {
    match result {
        Ok((row, body)) => DbEventModel::MailFetched {
            header: header_of_columns(row),
            body: body@,
            attachments: seq![],
        },
        Err(e) => DbEventModel::MailFetchFailed { uid, error: e@ },
    }
}

/// What is done with a report once it is known what was stored the last time.
pub open spec fn report_step(
    account_id: Text,
    mailbox: Text,
    uid_validity: u32,
    uid_next: u32,
    previous: Option<(u32, u32)>,
) -> DbStepModel {
    let plan = decision(previous, uid_validity, uid_next);
    DbStepModel::RunAndReport {
        statements: report_plan(account_id, mailbox, uid_validity, uid_next, plan),
        account_id,
        mailbox,
        plan,
    }
}

/// The answer once the statements of a plan have run or one has failed.
pub fn run_done(then_do: Followup, result: Result<(), String>) -> (r: Option<DbEvent>)
    ensures
        match (r, run_answer(then_do, result)) {
            (Some(event), Some(answer)) => event@ == answer,
            (None, None) => true,
            _ => false,
        },
{
    match result {
        Err(e) => Some(DbEvent::Error(e)),
        Ok(()) => match then_do {
            Followup::Nothing => None,
            Followup::Report { account_id, mailbox, plan } => Some(
                DbEvent::SyncPlan { account_id, mailbox, plan },
            ),
        },
    }
}

/// The answer to a search.
pub fn search_done(result: Result<Vec<SearchHit>, String>) -> (r: DbEvent)
    ensures
        r@ == search_answer(result),
{
    match result {
        Ok(hits) => DbEvent::SearchResult { hits },
        Err(e) => DbEvent::Error(e),
    }
}

/// The answer to a fetch. A message that cannot be read is answered with its
/// UID, whatever the reason.
pub fn fetch_done(uid: u32, result: Result<(MessageColumns, String), String>) -> (r: DbEvent)
    ensures
        r@ == fetch_answer(uid, result),
{
    match result {
        Ok((row, body)) => {
            let attachments: Vec<Attachment> = Vec::new();
            assert(attachments.deep_view() =~= seq![]);
            DbEvent::MailFetched { header: read_header(row), body, attachments }
        },
        Err(error) => DbEvent::MailFetchFailed { uid, error },
    }
}

/// Goes on with a report once it is known what was stored the last time.
pub fn state_known(
    account_id: String,
    mailbox: String,
    uid_validity: u32,
    uid_next: u32,
    previous: Option<(u32, u32)>,
) -> (r: DbStep)
    ensures
        r@ == report_step(account_id@, mailbox@, uid_validity, uid_next, previous),
{
    let (plan, statements) = report_mailbox_state(
        account_id.as_str(),
        mailbox.as_str(),
        uid_validity,
        uid_next,
        previous,
    );
    DbStep::Run { statements, then_do: Followup::Report { account_id, mailbox, plan } }
}

} // verus!
