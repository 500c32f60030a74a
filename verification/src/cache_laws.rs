//! What the cache's plans do to its tables, and what holds of them: a cached
//! message is read back and found, keys do not collide, headers never clobber
//! bodies, a resync forgets a mailbox and nothing else, and a search stays within
//! its account and its mailbox.

use vstd::prelude::*;
use crate::db;
use crate::db::{QueryModel, SqlModel, StatementModel, SyncPlan, MAX_CACHED_BODIES};
use crate::imap::MailHeaderModel;
use crate::text;
use crate::text::Text;

verus! {

/// What identifies a cached message: account, mailbox and UID.
pub type Key = (Text, Text, u32);

/// A row of message metadata.
#[verifier::ext_equal]
pub struct MessageRow {
    pub subject: Text,
    pub from: Text,
    pub to: Text,
    pub date: Text,
    pub message_id: Text,
    pub flags: Text,
    pub size: i64,
}

/// A row of the cached bodies.
#[verifier::ext_equal]
pub struct BodyRow {
    pub body: Text,
    pub cached_at: i64,
}

/// A row of the full-text index.
#[verifier::ext_equal]
pub struct IndexRow {
    pub subject: Text,
    pub from: Text,
    pub to: Text,
    pub body: Text,
}

/// The cache's tables. The full-text index has no key of its own: it holds a
/// list of rows per message.
#[verifier::ext_equal]
pub struct Tables {
    pub messages: Map<Key, MessageRow>,
    pub bodies: Map<Key, BodyRow>,
    pub indexed: Map<Key, Seq<IndexRow>>,
    pub mailboxes: Map<(Text, Text), (u32, u32)>,
}

/// The metadata row of a header with the given size.
pub open spec fn message_row(header: MailHeaderModel, size: i64) -> MessageRow {
    MessageRow {
        subject: header.subject,
        from: header.from,
        to: header.to,
        date: header.date,
        message_id: header.message_id,
        flags: db::flags_text(header.flags),
        size,
    }
}

/// The index row of a message.
pub open spec fn index_row(header: MailHeaderModel, body: Text) -> IndexRow {
    IndexRow { subject: header.subject, from: header.from, to: header.to, body }
}

/// Whether a key belongs to a mailbox.
pub open spec fn in_mailbox(k: Key, account: Text, mailbox: Text) -> bool {
    k.0 == account && k.1 == mailbox
}

/// A table without the rows of a mailbox.
pub open spec fn without_mailbox<V>(m: Map<Key, V>, account: Text, mailbox: Text) -> Map<Key, V> {
    m.restrict(m.dom().filter(|k: Key| !in_mailbox(k, account, mailbox)))
}

/// How many bodies an eviction leaves.
pub open spec fn rows_left(count: nat, max_rows: i64) -> nat {
    if max_rows < 0 {
        0
    } else if count > max_rows {
        max_rows as nat
    } else {
        count
    }
}

/// Whether `after` is what may remain of `before` once the oldest bodies were
/// deleted. Of bodies cached at the same time it is open which go first.
pub open spec fn evicted(before: Map<Key, BodyRow>, max_rows: i64, after: Map<Key, BodyRow>) -> bool {
    &&& after.dom().subset_of(before.dom())
    &&& forall|k: Key| #[trigger] after.dom().contains(k) ==> after[k] == before[k]
    &&& after.dom().len() == rows_left(before.dom().len(), max_rows)
    &&& forall|gone: Key, kept: Key|
        before.dom().contains(gone) && !#[trigger] after.dom().contains(gone)
            && #[trigger] after.dom().contains(kept) ==> before[gone].cached_at
            <= before[kept].cached_at
}

/// The tables after a statement that leaves nothing open.
pub open spec fn done(t: Tables, stmt: StatementModel) -> Tables {
    match stmt {
        StatementModel::UpsertHeader { account, mailbox, header } => {
            let k = (account, mailbox, header.uid);
            let size = if t.messages.dom().contains(k) {
                t.messages[k].size
            } else {
                0
            };
            Tables { messages: t.messages.insert(k, message_row(header, size)), ..t }
        },
        StatementModel::UpsertMessage { account, mailbox, header, size } => Tables {
            messages: t.messages.insert((account, mailbox, header.uid), message_row(header, size)),
            ..t
        },
        StatementModel::UpsertBody { account, mailbox, uid, body, cached_at } => Tables {
            bodies: t.bodies.insert((account, mailbox, uid), BodyRow { body, cached_at }),
            ..t
        },
        StatementModel::DeleteIndexed { account, mailbox, uid } => Tables {
            indexed: t.indexed.remove((account, mailbox, uid)),
            ..t
        },
        StatementModel::InsertIndexed { account, mailbox, header, body } => {
            let k = (account, mailbox, header.uid);
            let rows = if t.indexed.dom().contains(k) {
                t.indexed[k]
            } else {
                seq![]
            };
            Tables { indexed: t.indexed.insert(k, rows.push(index_row(header, body))), ..t }
        },
        StatementModel::SetFlags { account, mailbox, uid, flags } => {
            let k = (account, mailbox, uid);
            if t.messages.dom().contains(k) {
                Tables {
                    messages: t.messages.insert(
                        k,
                        MessageRow { flags: db::flags_text(flags), ..t.messages[k] },
                    ),
                    ..t
                }
            } else {
                t
            }
        },
        StatementModel::DeleteMessage { account, mailbox, uid } => Tables {
            messages: t.messages.remove((account, mailbox, uid)),
            ..t
        },
        StatementModel::DeleteBody { account, mailbox, uid } => Tables {
            bodies: t.bodies.remove((account, mailbox, uid)),
            ..t
        },
        StatementModel::DeleteMailboxMessages { account, mailbox } => Tables {
            messages: without_mailbox(t.messages, account, mailbox),
            ..t
        },
        StatementModel::DeleteMailboxBodies { account, mailbox } => Tables {
            bodies: without_mailbox(t.bodies, account, mailbox),
            ..t
        },
        StatementModel::DeleteMailboxIndexed { account, mailbox } => Tables {
            indexed: without_mailbox(t.indexed, account, mailbox),
            ..t
        },
        StatementModel::UpsertMailbox { account, mailbox, uid_validity, uid_next } => Tables {
            mailboxes: t.mailboxes.insert((account, mailbox), (uid_validity, uid_next)),
            ..t
        },
        StatementModel::EvictBodies { .. } => t,
    }
}

/// Whether a statement can take the tables from `before` to `after`.
pub open spec fn changed(before: Tables, stmt: StatementModel, after: Tables) -> bool {
    match stmt {
        StatementModel::EvictBodies { max_rows } => after == (Tables {
            bodies: after.bodies,
            ..before
        }) && evicted(before.bodies, max_rows, after.bodies),
        _ => after == done(before, stmt),
    }
}

/// Whether a plan can take the tables from `before` to `after`.
pub open spec fn ran(before: Tables, plan: Seq<StatementModel>, after: Tables) -> bool
    decreases plan.len(),
{
    if plan.len() == 0 {
        after == before
    } else {
        exists|mid: Tables|
            ran(before, plan.drop_last(), mid) && #[trigger] changed(mid, plan.last(), after)
    }
}

/// The tables just before the last statement of a plan.
proof fn lemma_last_step(before: Tables, plan: Seq<StatementModel>, after: Tables) -> (mid: Tables)
    requires
        plan.len() > 0,
        ran(before, plan, after),
    ensures
        ran(before, plan.drop_last(), mid),
        changed(mid, plan.last(), after),
{
    choose|mid: Tables|
        ran(before, plan.drop_last(), mid) && #[trigger] changed(mid, plan.last(), after)
}

/// What reading a message from the cache gives: its metadata and its body, if
/// both are there.
pub open spec fn fetched(t: Tables, k: Key) -> Option<(MessageRow, Text)> {
    if t.messages.dom().contains(k) && t.bodies.dom().contains(k) {
        Some((t.messages[k], t.bodies[k].body))
    } else {
        None
    }
}

/// The tables after the part of [`db::index_mail_plan`] that precedes the
/// eviction.
pub open spec fn mail_indexed(
    t: Tables,
    account: Text,
    mailbox: Text,
    header: MailHeaderModel,
    body: Text,
    cached_at: i64,
) -> Tables {
    let k = (account, mailbox, header.uid);
    Tables {
        messages: t.messages.insert(k, message_row(header, db::size_of_body(body))),
        bodies: t.bodies.insert(k, BodyRow { body, cached_at }),
        indexed: t.indexed.insert(k, seq![index_row(header, body)]),
        ..t
    }
}

proof fn lemma_index_mail(
    before: Tables,
    account: Text,
    mailbox: Text,
    header: MailHeaderModel,
    body: Text,
    cached_at: i64,
    after: Tables,
)
    requires
        ran(before, db::index_mail_plan(account, mailbox, header, body, cached_at), after),
    ensures
        changed(
            mail_indexed(before, account, mailbox, header, body, cached_at),
            StatementModel::EvictBodies { max_rows: MAX_CACHED_BODIES },
            after,
        ),
{
    let p5 = db::index_mail_plan(account, mailbox, header, body, cached_at);
    let p4 = p5.drop_last();
    let p3 = p4.drop_last();
    let p2 = p3.drop_last();
    let p1 = p2.drop_last();
    let t4 = lemma_last_step(before, p5, after);
    let t3 = lemma_last_step(before, p4, t4);
    let t2 = lemma_last_step(before, p3, t3);
    let t1 = lemma_last_step(before, p2, t2);
    let t0 = lemma_last_step(before, p1, t1);
    assert(t0 == before);
    let k = (account, mailbox, header.uid);
    assert(Seq::<IndexRow>::empty().push(index_row(header, body)) =~= seq![
        index_row(header, body),
    ]);
    assert(before.indexed.remove(k).insert(k, seq![index_row(header, body)])
        =~= before.indexed.insert(k, seq![index_row(header, body)]));
    assert(t4 =~= mail_indexed(before, account, mailbox, header, body, cached_at));
}

/// A message that was cached with its body is read back as it was, unless the
/// eviction that follows takes its body: it never does while the bodies are
/// within their limit or every other body was cached earlier.
pub proof fn law_cached_mail_is_read_back(
    before: Tables,
    account: Text,
    mailbox: Text,
    header: MailHeaderModel,
    body: Text,
    cached_at: i64,
    after: Tables,
)
    requires
        before.bodies.dom().finite(),
        ran(before, db::index_mail_plan(account, mailbox, header, body, cached_at), after),
        before.bodies.insert((account, mailbox, header.uid), BodyRow { body, cached_at }).dom().len()
            <= MAX_CACHED_BODIES || forall|k: Key|
            #[trigger] before.bodies.dom().contains(k) && k != (account, mailbox, header.uid)
                ==> before.bodies[k].cached_at < cached_at,
    ensures
        fetched(after, (account, mailbox, header.uid)) == Some(
            (message_row(header, db::size_of_body(body)), body),
        ),
{
    lemma_index_mail(before, account, mailbox, header, body, cached_at, after);
    let k = (account, mailbox, header.uid);
    let full = before.bodies.insert(k, BodyRow { body, cached_at });
    if !after.bodies.dom().contains(k) {
        if full.dom().len() <= MAX_CACHED_BODIES {
            vstd::set_lib::lemma_subset_equality(after.bodies.dom(), full.dom());
        } else {
            assert(after.bodies.dom().len() > 0);
            vstd::set_lib::lemma_len_subset(after.bodies.dom(), full.dom());
            let other = after.bodies.dom().choose();
            assert(after.bodies.dom().contains(other));
            assert(full.dom().contains(k));
            assert(full[k].cached_at <= full[other].cached_at);
            assert(before.bodies.dom().contains(other));
        }
    }
}

/// Caching a message leaves the metadata and the index entries of every other
/// message alone, whatever account or mailbox shares its UID, and never keeps
/// more bodies than the limit.
pub proof fn law_caching_mail_touches_one_key(
    before: Tables,
    account: Text,
    mailbox: Text,
    header: MailHeaderModel,
    body: Text,
    cached_at: i64,
    after: Tables,
    other: Key,
)
    requires
        ran(before, db::index_mail_plan(account, mailbox, header, body, cached_at), after),
        other != (account, mailbox, header.uid),
    ensures
        after.messages.dom().contains(other) == before.messages.dom().contains(other),
        before.messages.dom().contains(other) ==> after.messages[other] == before.messages[other],
        after.indexed.dom().contains(other) == before.indexed.dom().contains(other),
        before.indexed.dom().contains(other) ==> after.indexed[other] == before.indexed[other],
        after.bodies.dom().contains(other) ==> before.bodies.dom().contains(other)
            && after.bodies[other] == before.bodies[other],
        after.mailboxes == before.mailboxes,
        after.bodies.dom().len() <= MAX_CACHED_BODIES,
{
    lemma_index_mail(before, account, mailbox, header, body, cached_at, after);
}

/// Caching the same message twice updates it: there is one metadata row and
/// one index row for it, both from the second time.
pub proof fn law_caching_twice_updates(
    before: Tables,
    account: Text,
    mailbox: Text,
    first: MailHeaderModel,
    first_body: Text,
    first_at: i64,
    between: Tables,
    second: MailHeaderModel,
    second_body: Text,
    second_at: i64,
    after: Tables,
)
    requires
        first.uid == second.uid,
        ran(before, db::index_mail_plan(account, mailbox, first, first_body, first_at), between),
        ran(between, db::index_mail_plan(account, mailbox, second, second_body, second_at), after),
    ensures
        after.messages.dom() == between.messages.dom(),
        after.messages[(account, mailbox, second.uid)] == message_row(
            second,
            db::size_of_body(second_body),
        ),
        after.indexed[(account, mailbox, second.uid)] == seq![index_row(second, second_body)],
{
    lemma_index_mail(before, account, mailbox, first, first_body, first_at, between);
    lemma_index_mail(between, account, mailbox, second, second_body, second_at, after);
    assert(after.messages.dom() =~= between.messages.dom());
}

/// Caching headers leaves every cached body, the whole index and the mailbox
/// bookkeeping alone, and the sizes of messages that were already known.
pub proof fn law_headers_never_clobber(
    before: Tables,
    account: Text,
    mailbox: Text,
    headers: Seq<MailHeaderModel>,
    after: Tables,
)
    requires
        ran(before, db::index_headers_plan(account, mailbox, headers), after),
    ensures
        after.bodies == before.bodies,
        after.indexed == before.indexed,
        after.mailboxes == before.mailboxes,
        forall|k: Key| #[trigger]
            before.messages.dom().contains(k) ==> after.messages.dom().contains(k)
                && after.messages[k].size == before.messages[k].size,
        forall|i: int|
            0 <= i < headers.len() ==> after.messages.dom().contains(
                (account, mailbox, (#[trigger] headers[i]).uid),
            ),
    decreases headers.len(),
{
    let plan = db::index_headers_plan(account, mailbox, headers);
    if headers.len() > 0 {
        let few = headers.drop_last();
        assert(plan.drop_last() =~= db::index_headers_plan(account, mailbox, few));
        let mid = lemma_last_step(before, plan, after);
        law_headers_never_clobber(before, account, mailbox, few, mid);
        assert forall|i: int| 0 <= i < headers.len() implies after.messages.dom().contains(
            (account, mailbox, (#[trigger] headers[i]).uid),
        ) by {
            if i < few.len() {
                assert(headers[i] == few[i]);
            }
        }
    }
}

/// Mirroring the flags of a message that is not cached changes nothing; of one
/// that is, it changes its flags and nothing else.
pub proof fn law_flags_of_uncached_mail_are_ignored(
    before: Tables,
    account: Text,
    mailbox: Text,
    uid: u32,
    flags: Seq<Text>,
    after: Tables,
)
    requires
        ran(before, db::update_flags_plan(account, mailbox, uid, flags), after),
    ensures
        !before.messages.dom().contains((account, mailbox, uid)) ==> after == before,
        before.messages.dom().contains((account, mailbox, uid)) ==> after == (Tables {
            messages: before.messages.insert(
                (account, mailbox, uid),
                MessageRow {
                    flags: db::flags_text(flags),
                    ..before.messages[(account, mailbox, uid)]
                },
            ),
            ..before
        }),
{
    let plan = db::update_flags_plan(account, mailbox, uid, flags);
    let mid = lemma_last_step(before, plan, after);
    assert(mid == before);
}

/// A removed message is in none of the tables, and no other message changes.
pub proof fn law_removed_mail_is_gone(
    before: Tables,
    account: Text,
    mailbox: Text,
    uid: u32,
    after: Tables,
)
    requires
        ran(before, db::remove_message_plan(account, mailbox, uid), after),
    ensures
        after == (Tables {
            messages: before.messages.remove((account, mailbox, uid)),
            bodies: before.bodies.remove((account, mailbox, uid)),
            indexed: before.indexed.remove((account, mailbox, uid)),
            ..before
        }),
        fetched(after, (account, mailbox, uid)) is None,
{
    let p3 = db::remove_message_plan(account, mailbox, uid);
    let p2 = p3.drop_last();
    let p1 = p2.drop_last();
    let t2 = lemma_last_step(before, p3, after);
    let t1 = lemma_last_step(before, p2, t2);
    let t0 = lemma_last_step(before, p1, t1);
    assert(t0 == before);
}

/// When the server has reassigned a mailbox's UIDs, everything cached for that
/// mailbox is forgotten and every other mailbox is left alone.
pub proof fn law_resync_forgets_one_mailbox(
    before: Tables,
    account: Text,
    mailbox: Text,
    uid_validity: u32,
    uid_next: u32,
    after: Tables,
    k: Key,
)
    requires
        ran(
            before,
            db::report_plan(account, mailbox, uid_validity, uid_next, SyncPlan::Resync),
            after,
        ),
    ensures
        in_mailbox(k, account, mailbox) ==> !after.messages.dom().contains(k)
            && !after.bodies.dom().contains(k) && !after.indexed.dom().contains(k),
        !in_mailbox(k, account, mailbox) ==> fetched(after, k) == fetched(before, k)
            && after.messages.dom().contains(k) == before.messages.dom().contains(k)
            && after.bodies.dom().contains(k) == before.bodies.dom().contains(k)
            && after.indexed.dom().contains(k) == before.indexed.dom().contains(k),
        after.mailboxes == before.mailboxes.insert((account, mailbox), (uid_validity, uid_next)),
{
    let p4 = db::report_plan(account, mailbox, uid_validity, uid_next, SyncPlan::Resync);
    let p3 = p4.drop_last();
    let p2 = p3.drop_last();
    let p1 = p2.drop_last();
    let t3 = lemma_last_step(before, p4, after);
    let t2 = lemma_last_step(before, p3, t3);
    let t1 = lemma_last_step(before, p2, t2);
    let t0 = lemma_last_step(before, p1, t1);
    assert(t0 == before);
}

/// What a mailbox reported is remembered: reporting the same again finds the
/// cache up to date, and reporting another validity forces a resync.
pub proof fn law_reported_state_is_remembered(
    before: Tables,
    account: Text,
    mailbox: Text,
    uid_validity: u32,
    uid_next: u32,
    plan: SyncPlan,
    after: Tables,
    other_validity: u32,
    other_next: u32,
)
    requires
        ran(before, db::report_plan(account, mailbox, uid_validity, uid_next, plan), after),
        other_validity != uid_validity,
    ensures
        after.mailboxes[(account, mailbox)] == (uid_validity, uid_next),
        db::decision(Some(after.mailboxes[(account, mailbox)]), uid_validity, uid_next)
            == SyncPlan::UpToDate,
        db::decision(Some(after.mailboxes[(account, mailbox)]), other_validity, other_next)
            == SyncPlan::Resync,
{
    let p = db::report_plan(account, mailbox, uid_validity, uid_next, plan);
    let mid = lemma_last_step(before, p, after);
}

/// An eviction under the limit deletes nothing, and over the limit it keeps
/// the newest bodies.
pub proof fn law_eviction_keeps_the_newest(
    before: Map<Key, BodyRow>,
    max_rows: i64,
    after: Map<Key, BodyRow>,
    gone: Key,
    kept: Key,
)
    requires
        before.dom().finite(),
        0 <= max_rows,
        evicted(before, max_rows, after),
    ensures
        before.dom().len() <= max_rows ==> after == before,
        before.dom().contains(gone) && !after.dom().contains(gone) && after.dom().contains(kept)
            ==> before[gone].cached_at <= before[kept].cached_at,
        after.dom().len() <= max_rows,
{
    if before.dom().len() <= max_rows {
        vstd::set_lib::lemma_subset_equality(after.dom(), before.dom());
        assert(after =~= before);
    }
}

// ── Bringing a database up to date ──────────────────────────────────────────

/// The table of message metadata as a file holds it: its columns, and each row's
/// values by column.
#[verifier::ext_equal]
pub struct StoredTable {
    pub columns: Set<Text>,
    pub rows: Map<Key, Map<Text, SqlModel>>,
}

/// What a database file holds. A table may not have been made yet.
#[verifier::ext_equal]
pub struct Store {
    pub messages: Option<StoredTable>,
    pub bodies: Option<Map<Key, BodyRow>>,
    pub indexed: Option<Map<Key, Seq<IndexRow>>>,
    pub mailboxes: Option<Map<(Text, Text), (u32, u32)>>,
}

/// The columns that every table of messages has had, however old.
pub open spec fn first_columns() -> Set<Text> {
    set![
        "account_id"@,
        "mailbox"@,
        "uid"@,
        "subject"@,
        "from_addr"@,
        "to_addr"@,
        "date"@,
        "size"@,
    ]
}

/// The columns that came later, in the order in which they are added.
pub open spec fn later_columns() -> Seq<Text> {
    seq!["message_id"@, "flags"@]
}

/// The columns that the statements and queries of the cache name.
pub open spec fn named_columns() -> Set<Text> {
    first_columns().union(later_columns().to_set())
}

impl StoredTable {
    /// A table that was just made, by [`db::SCHEMA_SQL`].
    pub open spec fn fresh() -> StoredTable {
        StoredTable { columns: named_columns().insert("thread_key"@), rows: Map::empty() }
    }

    /// Each row has a value in each column of the table, and in no other.
    pub open spec fn wf(self) -> bool {
        forall|k: Key| #[trigger] self.rows.dom().contains(k) ==> self.rows[k].dom() == self.columns
    }

    /// What the database does and answers when a column is to be added whose
    /// default is the empty text, as with [`db::ADD_MESSAGE_ID_SQL`] and
    /// [`db::ADD_FLAGS_SQL`]: every row gets the default. A column that is already
    /// there is refused by its name, and nothing changes.
    pub open spec fn column_added(self, column: Text) -> (StoredTable, Result<(), Text>) {
        if self.columns.contains(column) {
            (self, Err("duplicate column name"@ + ": "@ + column))
        } else {
            (
                StoredTable {
                    columns: self.columns.insert(column),
                    rows: Map::new(
                        |k: Key| self.rows.dom().contains(k),
                        |k: Key| self.rows[k].insert(column, SqlModel::Text(seq![])),
                    ),
                },
                Ok(()),
            )
        }
    }

    /// The table once each of `added` was to be added in turn, up to the first
    /// failure that stands, and whether the database can be used.
    pub open spec fn upgraded(self, added: Seq<Text>) -> (StoredTable, Result<(), Text>)
        decreases added.len(),
    {
        if added.len() == 0 {
            (self, Ok(()))
        } else {
            let (before, so_far) = self.upgraded(added.drop_last());
            if so_far is Err {
                (before, so_far)
            } else {
                let (after, outcome) = before.column_added(added.last());
                (after, db::migrated(outcome))
            }
        }
    }

    /// The table with each of `added` that it lacked, empty in every row.
    pub open spec fn with_columns(self, added: Seq<Text>) -> StoredTable {
        StoredTable {
            columns: self.columns.union(added.to_set()),
            rows: Map::new(
                |k: Key| self.rows.dom().contains(k),
                |k: Key|
                    Map::new(
                        |c: Text| self.columns.contains(c) || added.contains(c),
                        |c: Text|
                            if self.columns.contains(c) {
                                self.rows[k][c]
                            } else {
                                SqlModel::Text(seq![])
                            },
                    ),
            ),
        }
    }
}

impl Store {
    /// A file of this program, however old, or an empty one.
    pub open spec fn wf(self) -> bool {
        self.messages matches Some(table) ==> table.wf() && first_columns().subset_of(table.columns)
    }

    /// The file once it was opened, and whether it can be used: tables that were
    /// missing are made, and the columns that came later are added.
    pub open spec fn opened(self) -> (Store, Result<(), Text>) {
        let table = match self.messages {
            Some(table) => table,
            None => StoredTable::fresh(),
        };
        let (table, outcome) = table.upgraded(later_columns());
        (
            Store {
                messages: Some(table),
                bodies: Some(
                    match self.bodies {
                        Some(bodies) => bodies,
                        None => Map::empty(),
                    },
                ),
                indexed: Some(
                    match self.indexed {
                        Some(indexed) => indexed,
                        None => Map::empty(),
                    },
                ),
                mailboxes: Some(
                    match self.mailboxes {
                        Some(mailboxes) => mailboxes,
                        None => Map::empty(),
                    },
                ),
            },
            outcome,
        )
    }

    /// What the cache's statements and queries see of a file that was opened.
    pub open spec fn tables(self) -> Tables {
        Tables {
            messages: Map::new(
                |k: Key| self.messages->0.rows.dom().contains(k),
                |k: Key| row_of(self.messages->0.rows[k]),
            ),
            bodies: self.bodies->0,
            indexed: self.indexed->0,
            mailboxes: self.mailboxes->0,
        }
    }
}

/// A text in a row; anything else reads as nothing.
pub open spec fn text_in(row: Map<Text, SqlModel>, column: Text) -> Text {
    match row[column] {
        SqlModel::Text(t) => t,
        _ => seq![],
    }
}

/// The metadata in a row with all the columns the cache names.
pub open spec fn row_of(row: Map<Text, SqlModel>) -> MessageRow {
    MessageRow {
        subject: text_in(row, "subject"@),
        from: text_in(row, "from_addr"@),
        to: text_in(row, "to_addr"@),
        date: text_in(row, "date"@),
        message_id: text_in(row, "message_id"@),
        flags: text_in(row, "flags"@),
        size: match row["size"@] {
            SqlModel::Integer(n) => n,
            _ => 0,
        },
    }
}

proof fn lemma_upgraded(table: StoredTable, added: Seq<Text>)
    requires
        table.wf(),
    ensures
        table.upgraded(added) == (table.with_columns(added), Ok::<(), Text>(())),
        table.with_columns(added).wf(),
    decreases added.len(),
{
    let out = table.with_columns(added);
    assert(out.wf()) by {
        assert forall|k: Key| #[trigger] out.rows.dom().contains(k) implies out.rows[k].dom()
            == out.columns by {
            assert(out.rows[k].dom() =~= out.columns);
        }
    }
    if added.len() == 0 {
        assert(out.columns =~= table.columns);
        assert forall|k: Key| table.rows.dom().contains(k) implies out.rows[k] == table.rows[k] by {
            assert(out.rows[k] =~= table.rows[k]);
        }
        assert(out.rows =~= table.rows);
        assert(out =~= table);
    } else {
        let few = added.drop_last();
        let last = added.last();
        lemma_upgraded(table, few);
        let before = table.with_columns(few);
        let refusal = "duplicate column name"@ + ": "@ + last;
        assert(text::contains(refusal, "duplicate column name"@)) by {
            assert(refusal.subrange(0, "duplicate column name"@.len() as int)
                =~= "duplicate column name"@);
            assert(text::occurs_at(refusal, "duplicate column name"@, 0));
        }
        assert forall|c: Text| #[trigger] added.contains(c) <==> few.contains(c) || c == last by {
            if few.contains(c) {
                let i = choose|i: int| 0 <= i < few.len() && few[i] == c;
                assert(added[i] == c);
            }
            if added.contains(c) {
                let i = choose|i: int| 0 <= i < added.len() && added[i] == c;
                if i < few.len() {
                    assert(few[i] == c);
                }
            }
            assert(added[added.len() - 1] == last);
        }
        let after = before.column_added(last).0;
        assert(after.columns =~= out.columns);
        assert(after.rows.dom() =~= out.rows.dom());
        assert forall|k: Key| #[trigger] table.rows.dom().contains(k) implies after.rows[k]
            == out.rows[k] by {
            assert(before.rows[k].dom() =~= before.columns);
            assert(after.rows[k].dom() =~= out.rows[k].dom());
            assert(after.rows[k] =~= out.rows[k]);
        }
        assert(after.rows =~= out.rows);
        assert(after =~= out);
    }
}

/// Opening a database file always succeeds, be it empty, up to date or older:
/// afterwards the table of messages has every column that the cache names. Every
/// row that was there is kept, with its value in each column it had and the empty
/// text in each that is new; a table that is new is empty. The other tables are
/// kept as they were.
pub proof fn law_opening_keeps_every_row(store: Store)
    requires
        store.wf(),
    ensures
        ({
            let (after, outcome) = store.opened();
            let new = after.messages->0;
            &&& outcome is Ok
            &&& after.wf() && after.messages is Some
            &&& named_columns().subset_of(new.columns)
            &&& match store.messages {
                Some(old) => {
                    &&& new.columns == old.columns.union(later_columns().to_set())
                    &&& new.rows.dom() == old.rows.dom()
                    &&& forall|k: Key, c: Text|
                        old.rows.dom().contains(k) && old.columns.contains(c)
                            ==> #[trigger] new.rows[k][c] == old.rows[k][c]
                    &&& forall|k: Key, c: Text|
                        old.rows.dom().contains(k) && later_columns().contains(c)
                            && !old.columns.contains(c) ==> #[trigger] new.rows[k][c]
                            == SqlModel::Text(seq![])
                },
                None => new == StoredTable::fresh(),
            }
            &&& after.bodies == Some(
                match store.bodies {
                    Some(bodies) => bodies,
                    None => Map::empty(),
                },
            )
            &&& after.indexed == Some(
                match store.indexed {
                    Some(indexed) => indexed,
                    None => Map::empty(),
                },
            )
            &&& after.mailboxes == Some(
                match store.mailboxes {
                    Some(mailboxes) => mailboxes,
                    None => Map::empty(),
                },
            )
        }),
{
    let table = match store.messages {
        Some(table) => table,
        None => StoredTable::fresh(),
    };
    lemma_upgraded(table, later_columns());
    let new = table.with_columns(later_columns());
    assert(named_columns().subset_of(new.columns));
    if store.messages is None {
        assert(new.columns =~= table.columns);
        assert(new.rows =~= table.rows);
        assert(new =~= table);
    } else {
        assert(new.rows.dom() =~= table.rows.dom());
    }
}

/// Opening a database file again succeeds and changes nothing.
pub proof fn law_an_upgrade_can_be_repeated(store: Store)
    requires
        store.wf(),
    ensures
        store.opened().0.opened() == (store.opened().0, Ok::<(), Text>(())),
{
    law_opening_keeps_every_row(store);
    let after = store.opened().0;
    let table = after.messages->0;
    lemma_upgraded(table, later_columns());
    let again = table.with_columns(later_columns());
    assert(again.columns =~= table.columns);
    assert forall|k: Key| #[trigger] table.rows.dom().contains(k) implies again.rows[k]
        == table.rows[k] by {
        assert(table.rows[k].dom() == table.columns);
        assert(again.rows[k] =~= table.rows[k]);
    }
    assert(again.rows =~= table.rows);
    assert(again =~= table);
    assert(after.opened().0 =~= after);
}

/// The cache reads an older file as it was written: of each message all that was
/// kept, and an empty message id or no flags where those were not kept yet.
pub proof fn law_an_older_cache_is_read(store: Store, k: Key)
    requires
        store.wf(),
        store.messages is Some,
        store.messages->0.rows.dom().contains(k),
    ensures
        ({
            let old = store.messages->0;
            let tables = store.opened().0.tables();
            let was = row_of(old.rows[k]);
            &&& tables.messages.dom() == old.rows.dom()
            &&& tables.messages[k] == (MessageRow {
                message_id: if old.columns.contains("message_id"@) {
                    was.message_id
                } else {
                    seq![]
                },
                flags: if old.columns.contains("flags"@) {
                    was.flags
                } else {
                    seq![]
                },
                ..was
            })
        }),
{
    law_opening_keeps_every_row(store);
    let old = store.messages->0;
    let new = store.opened().0.messages->0;
    let tables = store.opened().0.tables();
    assert(tables.messages.dom() =~= old.rows.dom());
    assert(later_columns()[0] == "message_id"@ && later_columns()[1] == "flags"@);
    assert(later_columns().contains("message_id"@) && later_columns().contains("flags"@));
    assert(first_columns().contains("subject"@) && first_columns().contains("from_addr"@));
    assert(first_columns().contains("to_addr"@) && first_columns().contains("date"@));
    assert(first_columns().contains("size"@));
    assert(new.rows[k]["subject"@] == old.rows[k]["subject"@]);
    assert(new.rows[k]["from_addr"@] == old.rows[k]["from_addr"@]);
    assert(new.rows[k]["to_addr"@] == old.rows[k]["to_addr"@]);
    assert(new.rows[k]["date"@] == old.rows[k]["date"@]);
    assert(new.rows[k]["size"@] == old.rows[k]["size"@]);
    assert(text_in(new.rows[k], "message_id"@) == if old.columns.contains("message_id"@) {
        text_in(old.rows[k], "message_id"@)
    } else {
        seq![]
    });
    assert(text_in(new.rows[k], "flags"@) == if old.columns.contains("flags"@) {
        text_in(old.rows[k], "flags"@)
    } else {
        seq![]
    });
}

/// A message that is cached in a file that was opened, however old the file, is
/// read back as it was, message id and flags and all, and found by a search.
pub proof fn law_an_older_cache_can_be_written(
    store: Store,
    account: Text,
    mailbox: Text,
    header: MailHeaderModel,
    body: Text,
    cached_at: i64,
    after: Tables,
    matching: spec_fn(IndexRow) -> bool,
)
    requires
        store.wf(),
        store.opened().0.tables().bodies.dom().finite(),
        ran(
            store.opened().0.tables(),
            db::index_mail_plan(account, mailbox, header, body, cached_at),
            after,
        ),
        store.opened().0.tables().bodies.insert(
            (account, mailbox, header.uid),
            BodyRow { body, cached_at },
        ).dom().len() <= MAX_CACHED_BODIES || forall|k: Key|
            #[trigger] store.opened().0.tables().bodies.dom().contains(k) && k != (
                account,
                mailbox,
                header.uid,
            ) ==> store.opened().0.tables().bodies[k].cached_at < cached_at,
    ensures
        fetched(after, (account, mailbox, header.uid)) == Some(
            (message_row(header, db::size_of_body(body)), body),
        ),
        matching(index_row(header, body)) ==> search_hits(
            after,
            Some(account),
            Some(mailbox),
            matching,
        ).contains(((account, mailbox, header.uid), 0)),
{
    let before = store.opened().0.tables();
    law_cached_mail_is_read_back(before, account, mailbox, header, body, cached_at, after);
    law_cached_mail_is_found(
        before,
        account,
        mailbox,
        header,
        body,
        cached_at,
        after,
        Some(account),
        Some(mailbox),
        matching,
    );
}

// ── Search ──────────────────────────────────────────────────────────────────

/// A row of the index that a search finds: the message it stands for, and its
/// place among that message's index rows.
pub type Hit = (Key, int);

/// Whether a bound filter lets a value pass. Nothing bound lets everything pass;
/// a text lets that very text pass, whatever characters it holds.
pub open spec fn passes(filter: Option<Text>, value: Text) -> bool {
    filter matches Some(wanted) ==> value == wanted
}

/// What [`db::SEARCH_SQL`] selects with `account` and `mailbox` bound to its
/// first two parameters, where `matching` says which index rows the full-text
/// query finds: the index rows within the filters that match and whose message
/// is cached. In which order they come is the full-text engine's affair.
pub open spec fn search_hits(
    t: Tables,
    account: Option<Text>,
    mailbox: Option<Text>,
    matching: spec_fn(IndexRow) -> bool,
) -> Set<Hit> {
    Set::new(
        |hit: Hit|
            {
                let k = hit.0;
                &&& passes(account, k.0)
                &&& passes(mailbox, k.1)
                &&& t.messages.dom().contains(k)
                &&& t.indexed.dom().contains(k)
                &&& 0 <= hit.1 < t.indexed[k].len()
                &&& matching(t.indexed[k][hit.1])
            },
    )
}

/// What a search command finds: its account and its mailbox are bound as they
/// are, and `matching` says which index rows each full-text query finds.
pub open spec fn found(
    t: Tables,
    query: QueryModel,
    matching: spec_fn(Text, IndexRow) -> bool,
) -> Set<Hit> {
    match query {
        QueryModel::Search { account, mailbox, query } => search_hits(
            t,
            account,
            mailbox,
            |row: IndexRow| matching(query, row),
        ),
        _ => Set::empty(),
    }
}

/// A search in one account finds exactly what a search in all of them finds in
/// that account, and a search in one mailbox exactly what a search in all of
/// them finds in that mailbox. Both are compared as they are: in a mailbox of
/// which nothing is cached nothing is found, whatever text names it, so no text
/// widens a search.
pub proof fn law_search_filters_are_exact(
    t: Tables,
    account: Text,
    mailbox: Text,
    any_account: Option<Text>,
    any_mailbox: Option<Text>,
    matching: spec_fn(IndexRow) -> bool,
)
    ensures
        search_hits(t, Some(account), any_mailbox, matching) == search_hits(
            t,
            None,
            any_mailbox,
            matching,
        ).filter(|hit: Hit| hit.0.0 == account),
        search_hits(t, any_account, Some(mailbox), matching) == search_hits(
            t,
            any_account,
            None,
            matching,
        ).filter(|hit: Hit| hit.0.1 == mailbox),
        (forall|k: Key| #[trigger] t.messages.dom().contains(k) ==> k.1 != mailbox) ==> search_hits(
            t,
            any_account,
            Some(mailbox),
            matching,
        ) == Set::<Hit>::empty(),
{
    if forall|k: Key| #[trigger] t.messages.dom().contains(k) ==> k.1 != mailbox {
        assert(search_hits(t, any_account, Some(mailbox), matching) =~= Set::<Hit>::empty());
    }
    assert(search_hits(t, Some(account), any_mailbox, matching) =~= search_hits(
        t,
        None,
        any_mailbox,
        matching,
    ).filter(|hit: Hit| hit.0.0 == account));
    assert(search_hits(t, any_account, Some(mailbox), matching) =~= search_hits(
        t,
        any_account,
        None,
        matching,
    ).filter(|hit: Hit| hit.0.1 == mailbox));
}

/// A message that was just cached is found by every query that its index row
/// matches, once, in its account and in its mailbox as well as everywhere; and
/// by no other query.
pub proof fn law_cached_mail_is_found(
    before: Tables,
    account: Text,
    mailbox: Text,
    header: MailHeaderModel,
    body: Text,
    cached_at: i64,
    after: Tables,
    in_account: Option<Text>,
    in_mailbox: Option<Text>,
    matching: spec_fn(IndexRow) -> bool,
)
    requires
        ran(before, db::index_mail_plan(account, mailbox, header, body, cached_at), after),
    ensures
        forall|n: int| #[trigger]
            search_hits(after, in_account, in_mailbox, matching).contains(
                ((account, mailbox, header.uid), n),
            ) <==> n == 0 && passes(in_account, account) && passes(in_mailbox, mailbox) && matching(
                index_row(header, body),
            ),
{
    lemma_index_mail(before, account, mailbox, header, body, cached_at, after);
}

/// A message that was dropped from the cache is not found any more, and every
/// other message is found as before.
pub proof fn law_removed_mail_is_not_found(
    before: Tables,
    account: Text,
    mailbox: Text,
    uid: u32,
    after: Tables,
    in_account: Option<Text>,
    in_mailbox: Option<Text>,
    matching: spec_fn(IndexRow) -> bool,
)
    requires
        ran(before, db::remove_message_plan(account, mailbox, uid), after),
    ensures
        search_hits(after, in_account, in_mailbox, matching) == search_hits(
            before,
            in_account,
            in_mailbox,
            matching,
        ).filter(|hit: Hit| hit.0 != (account, mailbox, uid)),
{
    law_removed_mail_is_gone(before, account, mailbox, uid, after);
    assert(search_hits(after, in_account, in_mailbox, matching) =~= search_hits(
        before,
        in_account,
        in_mailbox,
        matching,
    ).filter(|hit: Hit| hit.0 != (account, mailbox, uid)));
}

/// A search command asks for what its account and its mailbox say: what it finds
/// lies in them, and with neither it looks everywhere.
pub proof fn law_a_search_stays_within_its_filters(
    t: Tables,
    account: Option<Text>,
    mailbox: Option<Text>,
    query: Text,
    matching: spec_fn(Text, IndexRow) -> bool,
)
    ensures
        forall|hit: Hit|
            found(t, QueryModel::Search { account, mailbox, query }, matching).contains(hit)
                <==> #[trigger] found(
                t,
                QueryModel::Search { account: None, mailbox: None, query },
                matching,
            ).contains(hit) && passes(account, hit.0.0) && passes(mailbox, hit.0.1),
{
}

// ── Flags ───────────────────────────────────────────────────────────────────

/// A flag as IMAP allows it: not empty and without whitespace.
pub open spec fn is_atom(flag: Text) -> bool {
    flag.len() > 0 && forall|i: int| 0 <= i < flag.len() ==> !text::is_space(#[trigger] flag[i])
}

/// Appending a run of non-whitespace characters to a text that ends in
/// whitespace, or is empty, adds one word.
proof fn lemma_words_append(s: Text, word: Text)
    requires
        is_atom(word),
        s.len() == 0 || text::is_space(s.last()),
    ensures
        text::words(s + word) == text::words(s).push(word),
    decreases word.len(),
{
    let all = s + word;
    let head = word.drop_last();
    assert(all.drop_last() =~= s + head);
    assert(all.last() == word.last());
    assert(!text::is_space(word[word.len() - 1]));
    if word.len() == 1 {
        assert(s + head =~= s);
        assert(seq![all.last()] =~= word);
        if s.len() > 0 {
            assert(all[all.len() - 2] == s.last());
        }
    } else {
        assert(is_atom(head)) by {
            assert forall|i: int| 0 <= i < head.len() implies !text::is_space(
                #[trigger] head[i],
            ) by {
                assert(head[i] == word[i]);
            }
        }
        lemma_words_append(s, head);
        assert(all[all.len() - 2] == word[word.len() - 2]);
        let before = text::words(s + head);
        assert(before.drop_last() =~= text::words(s));
        assert(head.push(word.last()) =~= word);
    }
}

/// A list of flags survives being kept as the cache's flag column.
pub proof fn law_flags_round_trip(flags: Seq<Text>)
    requires
        forall|i: int| 0 <= i < flags.len() ==> is_atom(#[trigger] flags[i]),
    ensures
        db::flags_of_text(db::flags_text(flags)) == flags,
    decreases flags.len(),
{
    reveal_strlit(" ");
    if flags.len() == 0 {
        assert(text::words(seq![]) =~= flags);
    } else {
        let few = flags.drop_last();
        let last = flags.last();
        assert(is_atom(flags[flags.len() - 1]));
        if flags.len() == 1 {
            lemma_words_append(seq![], last);
            assert(Seq::<char>::empty() + last =~= last);
            assert(text::words(seq![]) =~= Seq::<Text>::empty());
            assert(Seq::<Text>::empty().push(last) =~= flags);
        } else {
            assert forall|i: int| 0 <= i < few.len() implies is_atom(#[trigger] few[i]) by {
                assert(few[i] == flags[i]);
            }
            law_flags_round_trip(few);
            let start = text::join(few, " "@);
            let spaced = start + " "@;
            assert(spaced.last() == ' ');
            assert(spaced.drop_last() =~= start);
            assert(text::words(spaced) == text::words(start));
            lemma_words_append(spaced, last);
            assert(few.push(last) =~= flags);
        }
    }
}

} // verus!
