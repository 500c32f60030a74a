//! The folder pane: how many unread messages each line tells of, and what it
//! says.

use vstd::prelude::*;
use vstd::string::*;
use crate::events::UnreadCounts;
use crate::mailboxes;
use crate::mailboxes::{MailboxRow, RowModel};
use crate::state::{AccountModel, AccountView, AppModel, ConnState, ConnStateModel, EsMailApp};
use crate::text;
use crate::text::Text;

verus! {

broadcast use vstd::string::group_string_axioms;

// ── Unread messages ─────────────────────────────────────────────────────────

/// The unread messages of a row's own mailbox; none where it is not counted.
pub open spec fn own_unread(row: RowModel, counts: Map<Text, u32>) -> nat {
    match row.full_name {
        Some(name) if counts.dom().contains(name) => counts[name] as nat,
        _ => 0,
    }
}

/// The unread messages of the rows from `from` up to `to`.
pub open spec fn unread_between(
    rows: Seq<RowModel>,
    counts: Map<Text, u32>,
    from: int,
    to: int,
) -> nat
    decreases to - from,
{
    if to <= from {
        0
    } else {
        unread_between(rows, counts, from, to - 1) + own_unread(rows[to - 1], counts)
    }
}

/// The unread messages a row tells of: its own, and those of its whole subtree
/// while it is folded.
pub open spec fn shown_unread(
    rows: Seq<RowModel>,
    counts: Map<Text, u32>,
    index: int,
    folded: Seq<Text>,
) -> nat {
    own_unread(rows[index], counts) + if mailboxes::is_folded(rows[index], folded) {
        unread_between(rows, counts, index + 1, mailboxes::subtree_end(rows, index, index + 1))
    } else {
        0
    }
}

/// The unread messages of an account's inbox.
pub open spec fn inbox_unread(rows: Seq<RowModel>, counts: Map<Text, u32>) -> nat
    decreases rows.len(),
{
    if rows.len() == 0 {
        0
    } else {
        let before = inbox_unread(rows.drop_last(), counts);
        match rows.last().full_name {
            Some(name) if text::lower(name) == text::lower("INBOX"@) => before + own_unread(
                rows.last(),
                counts,
            ),
            _ => before,
        }
    }
}

/// The unread messages of several accounts' inboxes.
pub open spec fn all_unread(accounts: Seq<AccountModel>) -> nat
    decreases accounts.len(),
{
    if accounts.len() == 0 {
        0
    } else {
        all_unread(accounts.drop_last()) + accounts.last().total_unread()
    }
}

impl AccountModel {
    /// The unread messages of the account's inbox.
    pub open spec fn total_unread(self) -> nat {
        inbox_unread(self.mailbox_rows, self.unread_counts)
    }
}

/// A sum, if it fits.
pub open spec fn fitting(n: nat) -> Option<u32> {
    if n <= u32::MAX {
        Some(n as u32)
    } else {
        None
    }
}

/// Adds two counts, if the sum fits.
fn add_counts(a: Option<u32>, b: u32) -> (r: Option<u32>)
    ensures
        r == (match a {
            Some(n) => fitting((n + b) as nat),
            None => None,
        }),
{
    match a {
        Some(n) => n.checked_add(b),
        None => None,
    }
}

/// The unread messages of a row's own mailbox.
fn count_own(row: &MailboxRow, counts: &UnreadCounts) -> (r: u32)
    ensures
        r == own_unread(row@, counts@),
{
    match &row.full_name {
        Some(name) => match counts.get(name.as_str()) {
            Some(n) => n,
            None => 0,
        },
        None => 0,
    }
}

/// The unread messages of the rows from `from` up to `to`, if the sum fits.
fn sum_between(rows: &Vec<MailboxRow>, counts: &UnreadCounts, from: usize, to: usize) -> (r: Option<u32>)
    requires
        from <= to <= rows@.len(),
    ensures
        r == fitting(unread_between(rows.deep_view(), counts@, from as int, to as int)),
{
    let ghost all = rows.deep_view();
    let mut sum: Option<u32> = Some(0);
    let mut i: usize = from;
    while i < to
        invariant
            from <= i <= to <= rows@.len(),
            all == rows.deep_view(),
            sum == fitting(unread_between(all, counts@, from as int, i as int)),
        decreases to - i,
    {
        assert(all[i as int] == rows@[i as int]@);
        sum = add_counts(sum, count_own(&rows[i], counts));
        i += 1;
    }
    sum
}

/// The unread messages a row tells of, if the sum fits.
pub fn subtree_unread(
    rows: &Vec<MailboxRow>,
    counts: &UnreadCounts,
    index: usize,
    folded: &Vec<String>,
) -> (r: Option<u32>)
    requires
        index < rows@.len(),
    ensures
        r == fitting(shown_unread(rows.deep_view(), counts@, index as int, folded.deep_view())),
{
    assert(rows.deep_view()[index as int] == rows@[index as int]@);
    let own: u32 = count_own(&rows[index], counts);
    if rows[index].has_children && mailboxes::lists(folded, &rows[index].key) {
        let end: usize = mailboxes::descendants_end(rows, index);
        add_counts(sum_between(rows, counts, index + 1, end), own)
    } else {
        Some(own)
    }
}

impl AccountView {
    /// The account's id.
    pub fn id(&self) -> (r: &str)
        ensures
            r@ == self@.id,
    {
        self.id.as_str()
    }

    /// The account's name.
    pub fn label(&self) -> (r: &str)
        ensures
            r@ == self@.label,
    {
        self.label.as_str()
    }

    /// The unread messages of the account's inbox, if the sum fits.
    pub fn total_unread(&self) -> (r: Option<u32>)
        ensures
            r == fitting(self@.total_unread()),
    {
        let ghost all = self.mailbox_rows.deep_view();
        let mut sum: Option<u32> = Some(0);
        let mut i: usize = 0;
        assert(all.take(0) =~= seq![]);
        while i < self.mailbox_rows.len()
            invariant
                i <= self.mailbox_rows@.len(),
                all == self.mailbox_rows.deep_view(),
                sum == fitting(inbox_unread(all.take(i as int), self.unread_counts@)),
            decreases self.mailbox_rows@.len() - i,
        {
            assert(all.take(i + 1).drop_last() =~= all.take(i as int));
            assert(all.take(i + 1).last() == self.mailbox_rows@[i as int]@);
            if let Some(name) = &self.mailbox_rows[i].full_name {
                if text::same_ignoring_case(name.as_str(), "INBOX") {
                    sum = add_counts(sum, count_own(&self.mailbox_rows[i], &self.unread_counts));
                }
            }
            i += 1;
        }
        assert(all.take(all.len() as int) =~= all);
        sum
    }
}

/// More accounts have at least as many unread messages.
proof fn lemma_all_unread_grows(accounts: Seq<AccountModel>, n: int)
    requires
        0 <= n <= accounts.len(),
    ensures
        all_unread(accounts.take(n)) <= all_unread(accounts),
    decreases accounts.len() - n,
{
    if n < accounts.len() {
        assert(accounts.take(n + 1).drop_last() =~= accounts.take(n));
        lemma_all_unread_grows(accounts, n + 1);
    } else {
        assert(accounts.take(n) =~= accounts);
    }
}

impl EsMailApp {
    /// The unread messages of all inboxes, if the sum fits.
    pub fn unread_everywhere(&self) -> (r: Option<u32>)
        ensures
            r == fitting(all_unread(self@.accounts)),
    {
        let ghost all = self@.accounts;
        let mut sum: u32 = 0;
        let mut i: usize = 0;
        assert(all.take(0) =~= seq![]);
        while i < self.accounts.len()
            invariant
                i <= self.accounts@.len(),
                all == self.accounts.deep_view(),
                all == self@.accounts,
                sum == all_unread(all.take(i as int)),
            decreases self.accounts@.len() - i,
        {
            assert(all.take(i + 1).drop_last() =~= all.take(i as int));
            assert(all.take(i + 1).last() == self.accounts@[i as int]@);
            proof {
                lemma_all_unread_grows(all, i + 1);
            }
            match self.accounts[i].total_unread() {
                Some(n) => match sum.checked_add(n) {
                    Some(s) => {
                        sum = s;
                    },
                    None => {
                        return None;
                    },
                },
                None => {
                    return None;
                },
            }
            i += 1;
        }
        assert(all.take(all.len() as int) =~= all);
        Some(sum)
    }
}

// ── What the lines say ──────────────────────────────────────────────────────

/// A name, followed by the unread messages if there are any.
pub open spec fn counted_text(label: Text, unread: nat) -> Text {
    if unread > 0 {
        label + "  ("@ + text::decimal(unread) + ")"@
    } else {
        label
    }
}

/// A name, followed by the unread messages if there are any.
pub fn counted_label(label: &str, unread: u32) -> (r: String)
    ensures
        r@ == counted_text(label@, unread as nat),
{
    let mut r = label.to_owned();
    if unread > 0 {
        r.append("  (");
        r.append(text::to_decimal(unread as u64).as_str());
        r.append(")");
    }
    r
}

/// The color of the dot that tells where an account's connection stands.
#[derive(Debug, Clone, Copy, PartialEq, Eq, Structural)]
pub enum Light {
    Green,
    Amber,
    Red,
}

/// The dot for a connection.
pub open spec fn light_of(state: ConnStateModel) -> Light {
    match state {
        ConnStateModel::Connected => Light::Green,
        ConnStateModel::Connecting => Light::Amber,
        ConnStateModel::Disconnected => Light::Amber,
        ConnStateModel::Failed(_) => Light::Red,
    }
}

/// What is said about a connection below the account's name.
pub open spec fn connection_note(state: ConnStateModel) -> Option<Text> {
    match state {
        ConnStateModel::Connected => None,
        ConnStateModel::Connecting => Some("Connecting…"@),
        ConnStateModel::Disconnected => Some("Reconnecting…"@),
        ConnStateModel::Failed(error) => Some(error),
    }
}

impl ConnState {
    /// The dot for the connection.
    pub fn light(&self) -> (r: Light)
        ensures
            r == light_of(self@),
    {
        match self {
            ConnState::Connected => Light::Green,
            ConnState::Connecting => Light::Amber,
            ConnState::Disconnected => Light::Amber,
            ConnState::Failed(_) => Light::Red,
        }
    }

    /// What is said about the connection below the account's name.
    pub fn note(&self) -> (r: Option<String>)
        ensures
            r.deep_view() == connection_note(self@),
    {
        match self {
            ConnState::Connected => None,
            ConnState::Connecting => Some("Connecting…".to_owned()),
            ConnState::Disconnected => Some("Reconnecting…".to_owned()),
            ConnState::Failed(error) => Some(error.clone()),
        }
    }
}

/// The key of a folded folder of an account, as it is saved.
pub open spec fn saved_key(account: Text, key: Text) -> Text {
    account + "\t"@ + key
}

/// The keys of an account's folded folders among those that are saved.
pub open spec fn folded_of(saved: Seq<Text>, account: Text) -> Seq<Text>
    decreases saved.len(),
{
    if saved.len() == 0 {
        seq![]
    } else {
        let before = folded_of(saved.drop_last(), account);
        let prefix = account + "\t"@;
        if text::starts_with(saved.last(), prefix) {
            before.push(saved.last().skip(prefix.len() as int))
        } else {
            before
        }
    }
}

/// The keys of an account's folded folders among those that are saved.
pub fn folded_keys(saved: &Vec<String>, account: &str) -> (r: Vec<String>)
    ensures
        r.deep_view() == folded_of(saved.deep_view(), account@),
{
    let mut prefix = account.to_owned();
    prefix.append("\t");
    let ghost all = saved.deep_view();
    let mut r: Vec<String> = Vec::new();
    let mut i: usize = 0;
    assert(r.deep_view() =~= folded_of(all.take(0), account@));
    while i < saved.len()
        invariant
            i <= saved@.len(),
            all == saved.deep_view(),
            prefix@ == account@ + "\t"@,
            r.deep_view() == folded_of(all.take(i as int), account@),
        decreases saved@.len() - i,
    {
        let ghost held = r.deep_view();
        assert(all.take(i + 1).drop_last() =~= all.take(i as int));
        assert(all.take(i + 1).last() == saved@[i as int]@);
        if let Some(key) = text::without_prefix(saved[i].as_str(), prefix.as_str()) {
            let ghost km = key@;
            r.push(key);
            assert(r.deep_view() =~= held.push(km));
        }
        i += 1;
    }
    assert(all.take(all.len() as int) =~= all);
    r
}

/// A line of the folder pane.
pub struct FolderLine {
    /// What it says.
    pub text: String,
    pub folded: bool,
    /// It is the mailbox that is open.
    pub selected: bool,
}

/// What a [`FolderLine`] holds.
#[verifier::ext_equal]
pub struct FolderLineModel {
    pub text: Text,
    pub folded: bool,
    pub selected: bool,
}

impl View for FolderLine {
    type V = FolderLineModel;

    open spec fn view(&self) -> FolderLineModel {
        FolderLineModel { text: self.text@, folded: self.folded, selected: self.selected }
    }
}

impl AppModel {
    /// The line of a folder of an account, if its unread messages can be
    /// counted.
    pub open spec fn folder_line(self, view: AccountModel, index: int, folded: Seq<Text>) -> Option<
        FolderLineModel,
    > {
        let row = view.mailbox_rows[index];
        let unread = shown_unread(view.mailbox_rows, view.unread_counts, index, folded);
        if unread <= u32::MAX {
            Some(
                FolderLineModel {
                    text: counted_text(row.label, unread),
                    folded: mailboxes::is_folded(row, folded),
                    selected: self.is_active(view.id) && row.full_name == Some(
                        self.selected_mailbox,
                    ),
                },
            )
        } else {
            None
        }
    }
}

impl EsMailApp {
    /// The line of a folder of an account, if its unread messages can be
    /// counted.
    pub fn folder_line(&self, view: &AccountView, index: usize, folded: &Vec<String>) -> (r: Option<
        FolderLine,
    >)
        requires
            index < view.mailbox_rows@.len(),
        ensures
            match r {
                Some(line) => self@.folder_line(view@, index as int, folded.deep_view()) == Some(
                    line@,
                ),
                None => self@.folder_line(view@, index as int, folded.deep_view()) is None,
            },
    {
        let unread = subtree_unread(&view.mailbox_rows, &view.unread_counts, index, folded);
        let row = &view.mailbox_rows[index];
        assert(view@.mailbox_rows[index as int] == row@);
        let selected = match &row.full_name {
            Some(name) => self.shows(view.id()) && *name == self.selected_mailbox,
            None => false,
        };
        match unread {
            Some(n) => Some(
                FolderLine {
                    text: counted_label(row.label.as_str(), n),
                    folded: row.has_children && mailboxes::lists(folded, &row.key),
                    selected,
                },
            ),
            None => None,
        }
    }
}

// ── Laws ────────────────────────────────────────────────────────────────────

/// Folding a folder hides no unread message: what the folder tells of then is
/// what it and everything below it told of before.
pub proof fn law_folding_hides_no_unread(
    rows: Seq<RowModel>,
    counts: Map<Text, u32>,
    index: int,
    folded: Seq<Text>,
)
    requires
        0 <= index < rows.len(),
        rows[index].has_children,
        folded.contains(rows[index].key),
    ensures
        shown_unread(rows, counts, index, folded) == unread_between(
            rows,
            counts,
            index,
            mailboxes::subtree_end(rows, index, index + 1),
        ),
{
    let end = mailboxes::subtree_end(rows, index, index + 1);
    lemma_subtree_end(rows, index, index + 1);
    lemma_unread_first(rows, counts, index, end);
}

proof fn lemma_subtree_end(rows: Seq<RowModel>, index: int, from: int)
    requires
        from <= rows.len(),
    ensures
        from <= mailboxes::subtree_end(rows, index, from) <= rows.len(),
    decreases rows.len() - from,
{
    if from < rows.len() && rows[from].depth > rows[index].depth {
        lemma_subtree_end(rows, index, from + 1);
    }
}

proof fn lemma_unread_first(rows: Seq<RowModel>, counts: Map<Text, u32>, from: int, to: int)
    requires
        from < to,
    ensures
        unread_between(rows, counts, from, to) == own_unread(rows[from], counts) + unread_between(
            rows,
            counts,
            from + 1,
            to,
        ),
    decreases to - from,
{
    if to == from + 1 {
        assert(unread_between(rows, counts, from, from) == 0);
        assert(unread_between(rows, counts, from + 1, to) == 0);
    } else {
        lemma_unread_first(rows, counts, from, to - 1);
    }
}

/// The folders an account has folded are exactly those saved under its name.
pub proof fn law_folded_folders_are_the_saved_ones(saved: Seq<Text>, account: Text, key: Text)
    ensures
        folded_of(saved, account).contains(key) <==> saved.contains(saved_key(account, key)),
    decreases saved.len(),
{
    let prefix = account + "\t"@;
    let full = saved_key(account, key);
    assert(full =~= prefix + key);
    assert(full.skip(prefix.len() as int) =~= key);
    assert(text::starts_with(full, prefix)) by {
        assert(full.subrange(0, prefix.len() as int) =~= prefix);
    }
    if saved.len() > 0 {
        let rest = saved.drop_last();
        law_folded_folders_are_the_saved_ones(rest, account, key);
        let before = folded_of(rest, account);
        let last = saved.last();
        assert(saved =~= rest.push(last));
        if text::starts_with(last, prefix) {
            let stripped = last.skip(prefix.len() as int);
            assert(last =~= prefix + stripped) by {
                assert(last.subrange(0, prefix.len() as int) =~= prefix);
            }
            assert(folded_of(saved, account) == before.push(stripped));
            assert((last == full) == (stripped == key));
            if before.push(stripped).contains(key) {
                let i = choose|i: int| 0 <= i < before.push(stripped).len() && before.push(stripped)[i] == key;
                if i < before.len() {
                    assert(before[i] == key);
                    assert(rest.contains(full));
                    let j = choose|j: int| 0 <= j < rest.len() && rest[j] == full;
                    assert(saved[j] == full);
                } else {
                    assert(saved[saved.len() - 1] == full);
                }
            }
            if saved.contains(full) {
                let j = choose|j: int| 0 <= j < saved.len() && saved[j] == full;
                if j < rest.len() {
                    assert(rest[j] == full);
                    assert(before.contains(key));
                    let i = choose|i: int| 0 <= i < before.len() && before[i] == key;
                    assert(before.push(stripped)[i] == key);
                } else {
                    assert(before.push(stripped)[before.len() as int] == key);
                }
            }
        } else {
            if saved.contains(full) {
                let j = choose|j: int| 0 <= j < saved.len() && saved[j] == full;
                assert(j < rest.len());
                assert(rest[j] == full);
            }
            if rest.contains(full) {
                let j = choose|j: int| 0 <= j < rest.len() && rest[j] == full;
                assert(saved[j] == full);
            }
        }
    }
}

} // verus!
