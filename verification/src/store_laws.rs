//! What is asked of the cache and what it answers: each request becomes statements
//! about the message it names, each column gets the value it is named for, and
//! what a row holds is told as it stands.

use vstd::prelude::*;
use vstd::string::*;
use vstd::utf8::*;
use crate::cache_laws;
use crate::db;
use crate::db::{
    DbCommandModel, DbEventModel, DbStepModel, Followup, MessageColumns, QueryModel, SearchHit, SearchHitModel,
    SqlModel, StatementModel, SyncPlan,
};
use crate::imap::{AttachmentModel, MailHeaderModel};
use crate::text;
use crate::text::Text;

verus! {

broadcast use vstd::string::group_string_axioms;

// ── Requests ────────────────────────────────────────────────────────────────

/// Each request becomes what it asks for, about the account, the mailbox and the
/// message that it names: a message is kept with its text, headers are kept one by
/// one, flags are set as given, a message is removed from every table.
pub proof fn law_each_request_becomes_its_statements(
    account: Text,
    mailbox: Text,
    header: MailHeaderModel,
    headers: Seq<MailHeaderModel>,
    uid: u32,
    body: Text,
    attachments: Seq<AttachmentModel>,
    flags: Seq<Text>,
    now: i64,
    i: int,
)
    ensures
        ({
            let kept = db::first_step(
                DbCommandModel::IndexMail { account_id: account, mailbox, header, body, attachments },
                now,
            );
            &&& kept is Run
            &&& kept->Run_statements.len() == 5
            &&& kept->Run_statements[0] == (StatementModel::UpsertMessage {
                account,
                mailbox,
                header,
                size: (encode_utf8(body).len() as usize) as i64,
            })
            &&& kept->Run_statements[1] == (StatementModel::UpsertBody {
                account,
                mailbox,
                uid: header.uid,
                body,
                cached_at: now,
            })
            &&& kept->Run_statements[2] == (StatementModel::DeleteIndexed {
                account,
                mailbox,
                uid: header.uid,
            })
            &&& kept->Run_statements[3] == (StatementModel::InsertIndexed {
                account,
                mailbox,
                header,
                body,
            })
            &&& kept->Run_statements[4] == (StatementModel::EvictBodies { max_rows: 2000 })
        }),
        ({
            let listed = db::first_step(
                DbCommandModel::IndexHeaders { account_id: account, mailbox, headers },
                now,
            );
            &&& listed is Run
            &&& listed->Run_statements.len() == headers.len()
            &&& 0 <= i < headers.len() ==> listed->Run_statements[i] == (StatementModel::UpsertHeader {
                account,
                mailbox,
                header: headers[i],
            })
        }),
        db::first_step(DbCommandModel::UpdateFlags { account_id: account, mailbox, uid, flags }, now) == (
        DbStepModel::Run {
            statements: seq![StatementModel::SetFlags { account, mailbox, uid, flags }],
        }),
        db::first_step(DbCommandModel::RemoveMessage { account_id: account, mailbox, uid }, now) == (
        DbStepModel::Run {
            statements: seq![
                StatementModel::DeleteMessage { account, mailbox, uid },
                StatementModel::DeleteBody { account, mailbox, uid },
                StatementModel::DeleteIndexed { account, mailbox, uid },
            ],
        }),
{
}

/// Each question is asked as it was meant: a search with its words and where to
/// look, a fetch with the message it names, a report with the mailbox it is about.
pub proof fn law_each_question_is_asked_as_it_was_meant(
    account: Text,
    mailbox: Text,
    uid: u32,
    query: Text,
    one: Option<Text>,
    place: Option<Text>,
    validity: u32,
    next: u32,
    now: i64,
)
    ensures
        db::first_step(DbCommandModel::Search { account_id: one, query, mailbox: place }, now) == (
        DbStepModel::Search { query: QueryModel::Search { account: one, mailbox: place, query } }),
        db::first_step(DbCommandModel::FetchMail { account_id: account, mailbox, uid }, now) == (
        DbStepModel::Fetch { query: QueryModel::Fetch { account, mailbox, uid }, uid }),
        db::first_step(
            DbCommandModel::ReportMailboxState {
                account_id: account,
                mailbox,
                uid_validity: validity,
                uid_next: next,
            },
            now,
        ) == (DbStepModel::AskState {
            query: QueryModel::State { account, mailbox },
            account_id: account,
            mailbox,
            uid_validity: validity,
            uid_next: next,
        }),
{
}

/// A mailbox that is new to the cache is fetched from its first message, one that
/// grew from the first message that is missing, and one whose messages were
/// numbered anew from scratch; what the server reported is remembered each time.
pub proof fn law_a_mailbox_is_brought_up_to_date(
    account: Text,
    mailbox: Text,
    validity: u32,
    next: u32,
    old_validity: u32,
    old_next: u32,
)
    ensures
        ({
            let remember = StatementModel::UpsertMailbox {
                account,
                mailbox,
                uid_validity: validity,
                uid_next: next,
            };
            let step = |previous: Option<(u32, u32)>|
                db::report_step(account, mailbox, validity, next, previous);
            let simply = |plan: SyncPlan|
                DbStepModel::RunAndReport {
                    statements: seq![remember],
                    account_id: account,
                    mailbox,
                    plan,
                };
            &&& next <= 1 ==> step(None) == simply(SyncPlan::UpToDate)
            &&& next > 1 ==> step(None) == simply(SyncPlan::FetchFrom { first_new_uid: 1 })
            &&& old_validity == validity && next > old_next ==> step(Some((old_validity, old_next)))
                == simply(SyncPlan::FetchFrom { first_new_uid: old_next })
            &&& old_validity == validity && next <= old_next ==> step(Some((old_validity, old_next)))
                == simply(SyncPlan::UpToDate)
            &&& old_validity != validity ==> step(Some((old_validity, old_next))) == (
            DbStepModel::RunAndReport {
                statements: seq![
                    StatementModel::DeleteMailboxMessages { account, mailbox },
                    StatementModel::DeleteMailboxBodies { account, mailbox },
                    StatementModel::DeleteMailboxIndexed { account, mailbox },
                    remember,
                ],
                account_id: account,
                mailbox,
                plan: SyncPlan::Resync,
            })
        }),
{
}

// ── Columns ─────────────────────────────────────────────────────────────────

/// Every column of a message gets the value it is named for, in the order in which
/// the statement names them.
pub proof fn law_every_column_gets_its_value(
    account: Text,
    mailbox: Text,
    header: MailHeaderModel,
    uid: u32,
    body: Text,
    size: i64,
    at: i64,
    flags: Seq<Text>,
    validity: u32,
    next: u32,
    max_rows: i64,
)
    ensures
        ({
            let a = SqlModel::Text(account);
            let m = SqlModel::Text(mailbox);
            let own = SqlModel::Integer(header.uid as i64);
            let asked = SqlModel::Integer(uid as i64);
            let subject = SqlModel::Text(header.subject);
            let from = SqlModel::Text(header.from);
            let to = SqlModel::Text(header.to);
            let date = SqlModel::Text(header.date);
            let message_id = SqlModel::Text(header.message_id);
            let kept = SqlModel::Text(text::join(header.flags, " "@));
            &&& (StatementModel::UpsertHeader { account, mailbox, header }).params() == seq![
                a,
                m,
                own,
                subject,
                from,
                to,
                date,
                message_id,
                kept,
            ]
            &&& (StatementModel::UpsertMessage { account, mailbox, header, size }).params() == seq![
                a,
                m,
                own,
                subject,
                from,
                to,
                date,
                message_id,
                SqlModel::Integer(size),
                kept,
            ]
            &&& (StatementModel::UpsertBody { account, mailbox, uid, body, cached_at: at }).params()
                == seq![a, m, asked, SqlModel::Text(body), SqlModel::Integer(at)]
            &&& (StatementModel::InsertIndexed { account, mailbox, header, body }).params() == seq![
                a,
                m,
                own,
                subject,
                from,
                to,
                SqlModel::Text(body),
            ]
            &&& (StatementModel::SetFlags { account, mailbox, uid, flags }).params() == seq![
                SqlModel::Text(text::join(flags, " "@)),
                a,
                m,
                asked,
            ]
            &&& (StatementModel::DeleteIndexed { account, mailbox, uid }).params() == seq![a, m, asked]
            &&& (StatementModel::DeleteMessage { account, mailbox, uid }).params() == seq![a, m, asked]
            &&& (StatementModel::DeleteBody { account, mailbox, uid }).params() == seq![a, m, asked]
            &&& (StatementModel::DeleteMailboxMessages { account, mailbox }).params() == seq![a, m]
            &&& (StatementModel::DeleteMailboxBodies { account, mailbox }).params() == seq![a, m]
            &&& (StatementModel::DeleteMailboxIndexed { account, mailbox }).params() == seq![a, m]
            &&& (StatementModel::UpsertMailbox {
                account,
                mailbox,
                uid_validity: validity,
                uid_next: next,
            }).params() == seq![
                a,
                m,
                SqlModel::Integer(validity as i64),
                SqlModel::Integer(next as i64),
            ]
            &&& (StatementModel::EvictBodies { max_rows }).params() == seq![SqlModel::Integer(max_rows)]
        }),
{
}

/// Each statement touches the table it is named for, and there the rows of the
/// message or the mailbox it names.
pub proof fn law_each_statement_touches_its_own_table(
    account: Text,
    mailbox: Text,
    uid: u32,
    flags: Seq<Text>,
)
    ensures
        (StatementModel::DeleteMessage { account, mailbox, uid }).sql()
            == "DELETE FROM messages WHERE account_id = ?1 AND mailbox = ?2 AND uid = ?3"@,
        (StatementModel::DeleteBody { account, mailbox, uid }).sql()
            == "DELETE FROM bodies WHERE account_id = ?1 AND mailbox = ?2 AND uid = ?3"@,
        (StatementModel::DeleteIndexed { account, mailbox, uid }).sql()
            == "DELETE FROM messages_fts WHERE account_id = ?1 AND mailbox = ?2 AND uid = ?3"@,
        (StatementModel::DeleteMailboxMessages { account, mailbox }).sql()
            == "DELETE FROM messages WHERE account_id = ?1 AND mailbox = ?2"@,
        (StatementModel::DeleteMailboxBodies { account, mailbox }).sql()
            == "DELETE FROM bodies WHERE account_id = ?1 AND mailbox = ?2"@,
        (StatementModel::DeleteMailboxIndexed { account, mailbox }).sql()
            == "DELETE FROM messages_fts WHERE account_id = ?1 AND mailbox = ?2"@,
        (StatementModel::SetFlags { account, mailbox, uid, flags }).sql()
            == "UPDATE messages SET flags = ?1 WHERE account_id = ?2 AND mailbox = ?3 AND uid = ?4"@,
        (QueryModel::State { account, mailbox }).sql()
            == "SELECT uid_validity, uid_next FROM mailboxes WHERE account_id = ?1 AND mailbox = ?2"@,
{
}

/// A question gets the values it is asked with; looking everywhere binds nothing.
pub proof fn law_every_question_gets_its_values(account: Text, mailbox: Text, uid: u32, query: Text)
    ensures
        ({
            let a = SqlModel::Text(account);
            let m = SqlModel::Text(mailbox);
            let q = SqlModel::Text(query);
            &&& (QueryModel::Search { account: Some(account), mailbox: Some(mailbox), query }).params()
                == seq![a, m, q]
            &&& (QueryModel::Search { account: None, mailbox: Some(mailbox), query }).params() == seq![
                SqlModel::Null,
                m,
                q,
            ]
            &&& (QueryModel::Search { account: Some(account), mailbox: None, query }).params() == seq![
                a,
                SqlModel::Null,
                q,
            ]
            &&& (QueryModel::Search { account: None, mailbox: None, query }).params() == seq![
                SqlModel::Null,
                SqlModel::Null,
                q,
            ]
            &&& (QueryModel::Fetch { account, mailbox, uid }).params() == seq![
                a,
                m,
                SqlModel::Integer(uid as i64),
            ]
            &&& (QueryModel::State { account, mailbox }).params() == seq![a, m]
        }),
{
}

/// A header that was kept is read back as it was, column for column.
pub proof fn law_a_kept_header_is_read_back(account: Text, mailbox: Text, header: MailHeaderModel, row: MessageColumns)
    requires
        forall|i: int|
            0 <= i < header.flags.len() ==> cache_laws::is_atom(#[trigger] header.flags[i]),
        ({
            let kept = (StatementModel::UpsertHeader { account, mailbox, header }).params();
            &&& kept[2] == SqlModel::Integer(row.uid as i64)
            &&& kept[3] == SqlModel::Text(row.subject@)
            &&& kept[4] == SqlModel::Text(row.from@)
            &&& kept[5] == SqlModel::Text(row.to@)
            &&& kept[6] == SqlModel::Text(row.date@)
            &&& kept[7] == SqlModel::Text(row.message_id@)
            &&& kept[8] == SqlModel::Text(row.flags@)
        }),
    ensures
        db::header_of_columns(row) == header,
{
    cache_laws::law_flags_round_trip(header.flags);
    assert(db::header_of_columns(row) =~= header);
}

/// A row stands for the message whose columns it holds, and a result says where it
/// lives.
pub proof fn law_a_row_stands_for_its_message(account: Text, mailbox: Text, row: MessageColumns)
    ensures
        ({
            let h = db::header_of_columns(row);
            &&& h.uid == row.uid
            &&& h.subject == row.subject@
            &&& h.from == row.from@
            &&& h.to == row.to@
            &&& h.date == row.date@
            &&& h.message_id == row.message_id@
            &&& h.flags == text::words(row.flags@)
            &&& db::hit_of_columns(account, mailbox, row) == (SearchHitModel {
                account_id: account,
                mailbox,
                header: h,
            })
        }),
{
}

// ── Answers ─────────────────────────────────────────────────────────────────

/// Each answer tells what was found or what went wrong: all results in their
/// order, the message as it is kept, the plan for its mailbox, the reason of a
/// failure. What was asked without a question is answered only if it failed.
pub proof fn law_each_answer_tells_what_was_found(
    hits: Vec<SearchHit>,
    row: MessageColumns,
    body: String,
    uid: u32,
    error: String,
    account: String,
    mailbox: String,
    plan: SyncPlan,
    then_do: Followup,
)
    ensures
        db::search_answer(Ok(hits)) == (DbEventModel::SearchResult { hits: hits.deep_view() }),
        db::search_answer(Err(error)) == DbEventModel::Error(error@),
        db::fetch_answer(uid, Ok((row, body))) == (DbEventModel::MailFetched {
            header: db::header_of_columns(row),
            body: body@,
            attachments: seq![],
        }),
        db::fetch_answer(uid, Err(error)) == (DbEventModel::MailFetchFailed { uid, error: error@ }),
        db::run_answer(then_do, Err(error)) == Some(DbEventModel::Error(error@)),
        db::run_answer(Followup::Nothing, Ok(())) is None,
        db::run_answer(Followup::Report { account_id: account, mailbox, plan }, Ok(())) == Some(
            DbEventModel::SyncPlan { account_id: account@, mailbox: mailbox@, plan },
        ),
{
}

/// A table that already has a column is as good as one that just got it; any other
/// failure stays one.
pub proof fn law_only_a_missing_column_is_an_error(error: Text, before: Text, after: Text)
    ensures
        db::migrated(Ok(())) is Ok,
        db::migrated(Err(before + "duplicate column name"@ + after)) is Ok,
        !text::contains(error, "duplicate column name"@) ==> db::migrated(Err(error)) == Err::<(), Text>(
            error,
        ),
{
    let s = before + "duplicate column name"@ + after;
    let n = before.len() as int;
    assert(s.subrange(n, n + "duplicate column name"@.len()) =~= "duplicate column name"@);
    assert(text::occurs_at(s, "duplicate column name"@, n));
}

} // verus!
