//! What the IMAP side of the client talks about: message headers, mailboxes,
//! flags, envelopes, and the commands and events of an account's session.

use vstd::prelude::*;
use vstd::string::*;
use vstd::utf8::*;
use crate::text;
use crate::text::Text;

pub use crate::events::{ImapCommand, ImapEvent};
pub use crate::mailboxes::{flatten_tree, mailbox_tree, MailboxNode, MailboxRow};

verus! {

broadcast use vstd::string::group_string_axioms;

// ── Message headers ─────────────────────────────────────────────────────────

/// One message as the header list shows it.
#[derive(Debug)]
pub struct MailHeader {
    pub uid: u32,
    pub subject: String,
    pub from: String,
    pub to: String,
    pub date: String,
    /// The `Message-ID` header with its angle brackets. Empty when the
    /// server's envelope had none.
    pub message_id: String,
    /// Raw IMAP flags (`"\Seen"`, `"\Flagged"`, ...) as of the latest fetch.
    pub flags: Vec<String>,
}

/// What a [`MailHeader`] holds.
#[verifier::ext_equal]
pub struct MailHeaderModel {
    pub uid: u32,
    pub subject: Text,
    pub from: Text,
    pub to: Text,
    pub date: Text,
    pub message_id: Text,
    pub flags: Seq<Text>,
}

impl View for MailHeader {
    type V = MailHeaderModel;

    open spec fn view(&self) -> MailHeaderModel {
        MailHeaderModel {
            uid: self.uid,
            subject: self.subject@,
            from: self.from@,
            to: self.to@,
            date: self.date@,
            message_id: self.message_id@,
            flags: self.flags.deep_view(),
        }
    }
}

impl DeepView for MailHeader {
    type V = MailHeaderModel;

    open spec fn deep_view(&self) -> MailHeaderModel {
        self.view()
    }
}

/// Copies a list of strings.
pub fn copy_strings(v: &Vec<String>) -> (r: Vec<String>)
    ensures
        r.deep_view() == v.deep_view(),
{
    let r = v.clone();
    assert(r.deep_view() =~= v.deep_view());
    r
}

impl Clone for MailHeader {
    fn clone(&self) -> (r: Self)
        ensures
            r@ == self@,
    {
        MailHeader {
            uid: self.uid,
            subject: self.subject.clone(),
            from: self.from.clone(),
            to: self.to.clone(),
            date: self.date.clone(),
            message_id: self.message_id.clone(),
            flags: copy_strings(&self.flags),
        }
    }
}

/// The flag that says a message has been read.
pub const FLAG_SEEN: &'static str = "\\Seen";

/// The flag that says a message is starred.
pub const FLAG_FLAGGED: &'static str = "\\Flagged";

/// The flag that says a message goes away at the next expunge.
pub const FLAG_DELETED: &'static str = "\\Deleted";

/// Whether a flag list names `flag`, ASCII case aside.
pub open spec fn has_flag(flags: Seq<Text>, flag: Text) -> bool {
    exists|i: int| 0 <= i < flags.len() && text::lower(#[trigger] flags[i]) == text::lower(flag)
}

/// Whether a flag list names `flag`, ASCII case aside.
pub fn lists_flag(flags: &Vec<String>, flag: &str) -> (r: bool)
    ensures
        r == has_flag(flags.deep_view(), flag@),
{
    let ghost all = flags.deep_view();
    let mut i: usize = 0;
    while i < flags.len()
        invariant
            i <= flags@.len(),
            all == flags.deep_view(),
            forall|j: int| 0 <= j < i ==> text::lower(#[trigger] all[j]) != text::lower(flag@),
        decreases flags@.len() - i,
    {
        if text::same_ignoring_case(flags[i].as_str(), flag) {
            assert(text::lower(all[i as int]) == text::lower(flag@));
            return true;
        }
        i += 1;
    }
    false
}

impl MailHeaderModel {
    /// Whether the message has been read.
    pub open spec fn is_seen(self) -> bool {
        has_flag(self.flags, FLAG_SEEN@)
    }

    /// Whether the message is starred.
    pub open spec fn is_flagged(self) -> bool {
        has_flag(self.flags, FLAG_FLAGGED@)
    }
}

impl MailHeader {
    /// Whether the message has been read.
    pub fn is_seen(&self) -> (r: bool)
        ensures
            r == self@.is_seen(),
    {
        lists_flag(&self.flags, FLAG_SEEN)
    }

    /// Whether the message is starred.
    pub fn is_flagged(&self) -> (r: bool)
        ensures
            r == self@.is_flagged(),
    {
        lists_flag(&self.flags, FLAG_FLAGGED)
    }
}

// ── Attachments ─────────────────────────────────────────────────────────────

/// A file that came with a message.
#[derive(Debug)]
pub struct Attachment {
    pub filename: String,
    pub mime_type: String,
    pub data: Vec<u8>,
}

/// What an [`Attachment`] holds.
#[verifier::ext_equal]
pub struct AttachmentModel {
    pub filename: Text,
    pub mime_type: Text,
    pub data: Seq<u8>,
}

impl View for Attachment {
    type V = AttachmentModel;

    open spec fn view(&self) -> AttachmentModel {
        AttachmentModel {
            filename: self.filename@,
            mime_type: self.mime_type@,
            data: self.data@,
        }
    }
}

impl DeepView for Attachment {
    type V = AttachmentModel;

    open spec fn deep_view(&self) -> AttachmentModel {
        self.view()
    }
}

// ── Flags ───────────────────────────────────────────────────────────────────

/// A message flag as the protocol names it.
#[derive(Debug)]
pub enum Flag {
    Seen,
    Answered,
    Flagged,
    Deleted,
    Draft,
    Recent,
    MayCreate,
    Custom(String),
}

/// The protocol text of a flag.
pub open spec fn flag_text(flag: Flag) -> Text {
    match flag {
        Flag::Seen => "\\Seen"@,
        Flag::Answered => "\\Answered"@,
        Flag::Flagged => "\\Flagged"@,
        Flag::Deleted => "\\Deleted"@,
        Flag::Draft => "\\Draft"@,
        Flag::Recent => "\\Recent"@,
        Flag::MayCreate => "\\*"@,
        Flag::Custom(s) => s@,
    }
}

/// The protocol text of a flag: a custom flag's own text, a system flag's name.
pub fn flag_to_str(flag: &Flag) -> (r: String)
    ensures
        r@ == flag_text(*flag),
{
    match flag {
        Flag::Seen => "\\Seen".to_string(),
        Flag::Answered => "\\Answered".to_string(),
        Flag::Flagged => "\\Flagged".to_string(),
        Flag::Deleted => "\\Deleted".to_string(),
        Flag::Draft => "\\Draft".to_string(),
        Flag::Recent => "\\Recent".to_string(),
        Flag::MayCreate => "\\*".to_string(),
        Flag::Custom(s) => s.clone(),
    }
}

/// The texts of a list of flags.
pub open spec fn flag_texts(flags: Seq<Flag>) -> Seq<Text> {
    Seq::new(flags.len(), |i: int| flag_text(flags[i]))
}

/// The texts of the flags a fetched message carries, in the server's order.
pub fn fetch_flags(flags: &Vec<Flag>) -> (r: Vec<String>)
    ensures
        r.deep_view() == flag_texts(flags@),
{
    let mut r: Vec<String> = Vec::new();
    let mut i: usize = 0;
    while i < flags.len()
        invariant
            i <= flags@.len(),
            r.deep_view() == flag_texts(flags@.take(i as int)),
        decreases flags@.len() - i,
    {
        let ghost held = r.deep_view();
        r.push(flag_to_str(&flags[i]));
        assert(r.deep_view() =~= held.push(flag_text(flags@[i as int])));
        assert(flag_texts(flags@.take(i + 1)) =~= held.push(flag_text(flags@[i as int])));
        i += 1;
    }
    assert(flags@.take(flags@.len() as int) =~= flags@);
    r
}

// ── Mailboxes as the server lists them ──────────────────────────────────────

/// The roles of RFC 6154 that folders are sorted by, and the inbox.
#[derive(Debug, Clone, Copy, PartialEq, Eq, PartialOrd, Ord, Structural)]
pub enum SpecialUse {
    Inbox,
    Sent,
    Drafts,
    Trash,
    Archive,
    Junk,
}

/// A name attribute of a `LIST` response.
#[derive(Debug)]
pub enum NameAttribute {
    NoInferiors,
    NoSelect,
    Marked,
    Unmarked,
    All,
    Archive,
    Drafts,
    Flagged,
    Junk,
    Sent,
    Trash,
    Other(String),
}

/// The role a name attribute gives its mailbox.
pub open spec fn attribute_use(attr: NameAttribute) -> Option<SpecialUse> {
    match attr {
        NameAttribute::Sent => Some(SpecialUse::Sent),
        NameAttribute::Drafts => Some(SpecialUse::Drafts),
        NameAttribute::Trash => Some(SpecialUse::Trash),
        NameAttribute::Archive => Some(SpecialUse::Archive),
        NameAttribute::Junk => Some(SpecialUse::Junk),
        _ => None,
    }
}

/// The role that a conventional mailbox name stands for, ASCII case aside.
pub open spec fn name_use(name: Text) -> Option<SpecialUse> {
    let n = text::lower(name);
    if n == "inbox"@ {
        Some(SpecialUse::Inbox)
    } else if n == "sent"@ || n == "sent items"@ || n == "sent mail"@ {
        Some(SpecialUse::Sent)
    } else if n == "drafts"@ {
        Some(SpecialUse::Drafts)
    } else if n == "trash"@ || n == "deleted items"@ {
        Some(SpecialUse::Trash)
    } else if n == "archive"@ {
        Some(SpecialUse::Archive)
    } else if n == "junk"@ || n == "spam"@ || n == "junk e-mail"@ {
        Some(SpecialUse::Junk)
    } else {
        None
    }
}

impl SpecialUse {
    /// The role that a `LIST` attribute gives, where the server advertises them.
    pub fn from_attribute(attr: &NameAttribute) -> (r: Option<Self>)
        ensures
            r == attribute_use(*attr),
    {
        match attr {
            NameAttribute::Sent => Some(SpecialUse::Sent),
            NameAttribute::Drafts => Some(SpecialUse::Drafts),
            NameAttribute::Trash => Some(SpecialUse::Trash),
            NameAttribute::Archive => Some(SpecialUse::Archive),
            NameAttribute::Junk => Some(SpecialUse::Junk),
            _ => None,
        }
    }

    /// The role that a conventional name stands for. The whole name has to
    /// match: `"Sent to Boss"` is no Sent folder.
    pub fn from_name(name: &str) -> (r: Option<Self>)
        ensures
            r == name_use(name@),
    {
        let n = text::to_lower(name);
        let n = n.as_str();
        if text::same(n, "inbox") {
            Some(SpecialUse::Inbox)
        } else if text::same(n, "sent") || text::same(n, "sent items") || text::same(n, "sent mail") {
            Some(SpecialUse::Sent)
        } else if text::same(n, "drafts") {
            Some(SpecialUse::Drafts)
        } else if text::same(n, "trash") || text::same(n, "deleted items") {
            Some(SpecialUse::Trash)
        } else if text::same(n, "archive") {
            Some(SpecialUse::Archive)
        } else if text::same(n, "junk") || text::same(n, "spam") || text::same(n, "junk e-mail") {
            Some(SpecialUse::Junk)
        } else {
            None
        }
    }
}

/// One mailbox as `LIST` reports it.
#[derive(Debug)]
pub struct MailboxInfo {
    pub name: String,
    /// The server's hierarchy delimiter, if it has one.
    pub delimiter: Option<String>,
    pub special_use: Option<SpecialUse>,
    /// The server marked the name `\Noselect`: it only holds other mailboxes.
    pub noselect: bool,
}

/// What a [`MailboxInfo`] holds.
#[verifier::ext_equal]
pub struct MailboxInfoModel {
    pub name: Text,
    pub delimiter: Option<Text>,
    pub special_use: Option<SpecialUse>,
    pub noselect: bool,
}

impl View for MailboxInfo {
    type V = MailboxInfoModel;

    open spec fn view(&self) -> MailboxInfoModel {
        MailboxInfoModel {
            name: self.name@,
            delimiter: self.delimiter.deep_view(),
            special_use: self.special_use,
            noselect: self.noselect,
        }
    }
}

impl DeepView for MailboxInfo {
    type V = MailboxInfoModel;

    open spec fn deep_view(&self) -> MailboxInfoModel {
        self.view()
    }
}

/// The role that the first attribute with a role gives.
pub open spec fn attributes_use(attrs: Seq<NameAttribute>) -> Option<SpecialUse>
    decreases attrs.len(),
{
    if attrs.len() == 0 {
        None
    } else if attribute_use(attrs.first()) is Some {
        attribute_use(attrs.first())
    } else {
        attributes_use(attrs.drop_first())
    }
}

/// One `LIST` response as the client keeps it: the role comes from the
/// attributes, or from the name where no attribute gives one.
pub open spec fn listed(
    name: Text,
    delimiter: Option<Text>,
    attrs: Seq<NameAttribute>,
) -> MailboxInfoModel {
    MailboxInfoModel {
        name,
        delimiter,
        special_use: if attributes_use(attrs) is Some {
            attributes_use(attrs)
        } else {
            name_use(name)
        },
        noselect: exists|i: int| 0 <= i < attrs.len() && #[trigger] attrs[i] is NoSelect,
    }
}

/// Reads one `LIST` response.
pub fn mailbox_info(
    name: String,
    delimiter: Option<String>,
    attrs: &Vec<NameAttribute>,
) -> (r: MailboxInfo)
    ensures
        r@ == listed(name@, delimiter.deep_view(), attrs@),
{
    let mut by_attribute: Option<SpecialUse> = None;
    let mut noselect = false;
    let mut i: usize = 0;
    assert(attrs@.skip(0) =~= attrs@);
    while i < attrs.len()
        invariant
            i <= attrs@.len(),
            by_attribute is Some ==> attributes_use(attrs@) == by_attribute,
            by_attribute is None ==> attributes_use(attrs@) == attributes_use(attrs@.skip(i as int)),
            noselect == exists|j: int| 0 <= j < i && #[trigger] attrs@[j] is NoSelect,
        decreases attrs@.len() - i,
    {
        assert(attrs@.skip(i as int).drop_first() =~= attrs@.skip(i + 1));
        if by_attribute.is_none() {
            by_attribute = SpecialUse::from_attribute(&attrs[i]);
        }
        if matches!(attrs[i], NameAttribute::NoSelect) {
            noselect = true;
            assert(attrs@[i as int] is NoSelect);
        }
        i += 1;
    }
    let special_use = match by_attribute {
        Some(u) => Some(u),
        None => SpecialUse::from_name(name.as_str()),
    };
    MailboxInfo { name, delimiter, special_use, noselect }
}

/// A name of a `LIST` response.
pub struct ListedName {
    pub name: String,
    pub delimiter: Option<String>,
    pub attributes: Vec<NameAttribute>,
}

impl ListedName {
    /// The name as the client keeps it.
    pub open spec fn info(self) -> MailboxInfoModel {
        listed(self.name@, self.delimiter.deep_view(), self.attributes@)
    }
}

/// The mailboxes of a `LIST` response in the server's order; a line that could
/// not be read is passed over.
pub open spec fn listing(names: Seq<Option<ListedName>>) -> Seq<MailboxInfoModel>
    decreases names.len(),
{
    if names.len() == 0 {
        seq![]
    } else {
        match names.last() {
            Some(name) => listing(names.drop_last()).push(name.info()),
            None => listing(names.drop_last()),
        }
    }
}

/// Reads the mailboxes of a `LIST` response.
pub fn fetch_mailboxes(names: Vec<Option<ListedName>>) -> (r: Vec<MailboxInfo>)
    ensures
        r.deep_view() == listing(names@),
{
    let ghost all = names@;
    let mut left = names;
    let mut r: Vec<MailboxInfo> = Vec::new();
    let ghost mut n: int = 0;
    assert(left@ =~= all.skip(0));
    assert(r.deep_view() =~= listing(all.take(0)));
    while left.len() > 0
        invariant
            0 <= n <= all.len(),
            left@ == all.skip(n),
            r.deep_view() == listing(all.take(n)),
        decreases left@.len(),
    {
        let ghost held = r.deep_view();
        let name = left.remove(0);
        proof {
            assert(name == all[n]);
            assert(left@ =~= all.skip(n + 1));
            assert(all.take(n + 1).drop_last() =~= all.take(n));
        }
        if let Some(name) = name {
            let info = mailbox_info(name.name, name.delimiter, &name.attributes);
            r.push(info);
            assert(r.deep_view() =~= held.push(info@));
        }
        proof {
            n = n + 1;
        }
    }
    assert(all.take(n) =~= all);
    r
}

/// The UID bookkeeping of a mailbox as its latest `EXAMINE` reported it.
#[derive(Debug, Clone, Copy, PartialEq, Eq, Structural)]
pub struct MailboxState {
    pub uid_validity: u32,
    pub uid_next: u32,
}

/// The state a response stands for: a value the server left out counts as zero.
pub open spec fn state_of(uid_validity: Option<u32>, uid_next: Option<u32>) -> MailboxState {
    MailboxState {
        uid_validity: match uid_validity {
            Some(n) => n,
            None => 0,
        },
        uid_next: match uid_next {
            Some(n) => n,
            None => 0,
        },
    }
}

/// The state a response stands for: a value the server left out counts as zero.
pub fn mailbox_state(uid_validity: Option<u32>, uid_next: Option<u32>) -> (r: MailboxState)
    ensures
        r == state_of(uid_validity, uid_next),
{
    MailboxState { uid_validity: uid_validity.unwrap_or(0), uid_next: uid_next.unwrap_or(0) }
}

// ── Envelopes ───────────────────────────────────────────────────────────────

/// One address of an envelope, as raw protocol text.
pub struct Address {
    pub name: Option<Vec<u8>>,
    pub mailbox: Option<Vec<u8>>,
    pub host: Option<Vec<u8>>,
}

/// The envelope of a fetched message, as raw protocol text.
pub struct Envelope {
    pub date: Option<Vec<u8>>,
    pub subject: Option<Vec<u8>>,
    pub from: Option<Vec<Address>>,
    pub to: Option<Vec<Address>>,
    pub message_id: Option<Vec<u8>>,
}

/// What `mailparse` reads as the value of the header line `raw`, if it reads
/// one.
pub uninterp spec fn header_value(raw: Seq<u8>) -> Option<Text>;

/// `mailparse::parse_header` and the value of the header it finds, with its
/// encoded words decoded. The result depends on the bytes alone. Parsing fails
/// on empty input and on input that begins with a space, and on no other.
#[verifier::external_body]
fn parse_header_value(raw: &Vec<u8>) -> (r: Option<String>)
    ensures
        r.deep_view() == header_value(raw@),
        raw@.len() > 0 && raw@[0] != 32 ==> r is Some,
{
    match mailparse::parse_header(raw) {
        Ok((header, _)) => Some(header.get_value()),
        Err(_) => None,
    }
}

/// What `String::from_utf8_lossy` makes of bytes.
pub uninterp spec fn lossy_text(bytes: Seq<u8>) -> Text;

/// `String::from_utf8_lossy` decodes bytes as UTF-8, replacing what is not
/// valid; valid UTF-8 is decoded as it is.
#[verifier::external_body]
fn decode_lossy(bytes: &Vec<u8>) -> (r: String)
    ensures
        r@ == lossy_text(bytes@),
        valid_utf8(bytes@) ==> r@ == decode_utf8(bytes@),
{
    String::from_utf8_lossy(bytes).to_string()
}

/// The header line that makes `bytes` the value of a header.
pub open spec fn header_line(bytes: Seq<u8>) -> Seq<u8> {
    seq![88u8, 58u8, 32u8] + bytes + seq![10u8]
}

/// Protocol text with its encoded words decoded.
pub open spec fn decoded(bytes: Seq<u8>) -> Text {
    match header_value(header_line(bytes)) {
        Some(value) => value,
        None => lossy_text(bytes),
    }
}

/// Decodes protocol text that may hold encoded words.
pub fn decode_rfc2047(bytes: &Vec<u8>) -> (r: String)
    ensures
        r@ == decoded(bytes@),
{
    let mut raw: Vec<u8> = vec![88u8, 58u8, 32u8];
    raw.extend_from_slice(bytes.as_slice());
    raw.push(10u8);
    assert(raw@ =~= header_line(bytes@));
    match parse_header_value(&raw) {
        Some(value) => value,
        None => decode_lossy(bytes),
    }
}

/// An address for display: the mailbox at its host, behind the name in angle
/// brackets if there is a name.
pub open spec fn address_text(name: Option<Text>, mailbox: Text, host: Text) -> Text {
    match name {
        Some(n) => n + " <"@ + mailbox + "@"@ + host + ">"@,
        None => mailbox + "@"@ + host,
    }
}

/// An address for display.
pub fn format_address(name: Option<String>, mailbox: &str, host: &str) -> (r: String)
    ensures
        r@ == address_text(name.deep_view(), mailbox@, host@),
{
    match name {
        Some(n) => {
            let mut r = n;
            r.append(" <");
            r.append(mailbox);
            r.append("@");
            r.append(host);
            r.append(">");
            r
        },
        None => {
            let mut r = mailbox.to_owned();
            r.append("@");
            r.append(host);
            r
        },
    }
}

/// Optional bytes as text; none is the empty text.
pub open spec fn lossy_or_empty(bytes: Option<Vec<u8>>) -> Text {
    match bytes {
        Some(b) => lossy_text(b@),
        None => seq![],
    }
}

/// Optional encoded text, decoded; none is the empty text.
pub open spec fn decoded_or_empty(bytes: Option<Vec<u8>>) -> Text {
    match bytes {
        Some(b) => decoded(b@),
        None => seq![],
    }
}

/// The first address of a list for display; without one, the empty text.
pub open spec fn first_address(addrs: Option<Vec<Address>>) -> Text {
    match addrs {
        Some(list) => if list@.len() == 0 {
            seq![]
        } else {
            address_text(
                match list@[0].name {
                    Some(n) => Some(decoded(n@)),
                    None => None,
                },
                lossy_or_empty(list@[0].mailbox),
                lossy_or_empty(list@[0].host),
            )
        },
        None => seq![],
    }
}

/// The header that an envelope stands for.
pub open spec fn envelope_header(uid: u32, envelope: Envelope, flags: Seq<Text>) -> MailHeaderModel {
    MailHeaderModel {
        uid,
        subject: decoded_or_empty(envelope.subject),
        from: first_address(envelope.from),
        to: first_address(envelope.to),
        date: lossy_or_empty(envelope.date),
        message_id: lossy_or_empty(envelope.message_id),
        flags,
    }
}

/// Optional bytes as a string; none is the empty string.
fn lossy_option(bytes: &Option<Vec<u8>>) -> (r: String)
    ensures
        r@ == lossy_or_empty(*bytes),
{
    match bytes {
        Some(b) => decode_lossy(b),
        None => String::new(),
    }
}

/// The first address of a list for display.
fn first_of(addrs: &Option<Vec<Address>>) -> (r: String)
    ensures
        r@ == first_address(*addrs),
{
    match addrs {
        Some(list) => {
            if list.len() == 0 {
                String::new()
            } else {
                let name = match &list[0].name {
                    Some(n) => Some(decode_rfc2047(n)),
                    None => None,
                };
                let mailbox = lossy_option(&list[0].mailbox);
                let host = lossy_option(&list[0].host);
                format_address(name, mailbox.as_str(), host.as_str())
            }
        },
        None => String::new(),
    }
}

/// Turns a fetched UID, its envelope and its flags into a header.
pub fn parse_envelope_header(uid: u32, envelope: &Envelope, flags: Vec<String>) -> (r: MailHeader)
    ensures
        r@ == envelope_header(uid, *envelope, flags.deep_view()),
{
    let subject = match &envelope.subject {
        Some(s) => decode_rfc2047(s),
        None => String::new(),
    };
    let from = first_of(&envelope.from);
    let to = first_of(&envelope.to);
    let date = lossy_option(&envelope.date);
    let message_id = lossy_option(&envelope.message_id);
    MailHeader { uid, subject, from, to, date, message_id, flags }
}

// ── Pages of headers ────────────────────────────────────────────────────────

/// How many headers a page of the message list holds.
pub const PER_PAGE: u32 = 50;

/// The part of a mailbox that one page shows: message numbers `start` to `end`.
#[derive(Debug, Clone, Copy, PartialEq, Eq, Structural)]
pub struct PageRange {
    pub page: u32,
    pub total_pages: u32,
    pub start: u32,
    pub end: u32,
}

/// The number of pages that `total` messages take.
pub open spec fn page_count(total: int) -> int {
    (total + PER_PAGE - 1) / PER_PAGE as int
}

/// The page that is shown when `page` is asked for: the nearest there is.
pub open spec fn nearest_page(total: int, page: int) -> int {
    if page > page_count(total) {
        page_count(total)
    } else if page < 1 {
        1
    } else {
        page
    }
}

/// The last message number of a page; the newest messages are on the first.
pub open spec fn page_end(total: int, page: int) -> int {
    total - (nearest_page(total, page) - 1) * PER_PAGE
}

/// The first message number of a page.
pub open spec fn page_start(total: int, page: int) -> int {
    if page_end(total, page) < PER_PAGE {
        1
    } else {
        page_end(total, page) - PER_PAGE + 1
    }
}

/// Which messages the page `page` of a mailbox with `total` messages shows; an
/// empty mailbox has no page.
pub fn page_range(total: u32, page: u32) -> (r: Option<PageRange>)
    requires
        total <= u32::MAX - 50,
    ensures
        match r {
            None => total == 0,
            Some(p) => {
                &&& total > 0
                &&& p.total_pages == page_count(total as int)
                &&& p.page == nearest_page(total as int, page as int)
                &&& p.start == page_start(total as int, page as int)
                &&& p.end == page_end(total as int, page as int)
            },
        },
{
    if total == 0 {
        return None;
    }
    let total_pages: u32 = (total + PER_PAGE - 1) / PER_PAGE;
    let page: u32 = if page > total_pages {
        total_pages
    } else if page < 1 {
        1
    } else {
        page
    };
    assert((page - 1) * PER_PAGE < total) by (nonlinear_arith)
        requires
            1 <= page <= total_pages,
            total_pages == (total + 49) / 50,
            PER_PAGE == 50,
            total > 0,
    ;
    let end: u32 = total - (page - 1) * PER_PAGE;
    let start: u32 = if end < PER_PAGE {
        1
    } else {
        end - PER_PAGE + 1
    };
    Some(PageRange { page, total_pages, start, end })
}

/// The pages of a mailbox cover every message exactly once: a page's range is
/// not empty and lies within the mailbox, a page ends right before the page
/// with newer messages begins, the first page ends with the newest message and
/// the last begins with the oldest.
pub proof fn law_pages_partition_the_mailbox(total: int, page: int)
    requires
        total > 0,
        1 <= page <= page_count(total),
    ensures
        1 <= page_start(total, page) <= page_end(total, page) <= total,
        page_end(total, page) - page_start(total, page) < PER_PAGE,
        page_end(total, 1) == total,
        page < page_count(total) ==> page_end(total, page + 1) == page_start(total, page) - 1,
        page_start(total, page_count(total)) == 1,
{
    assert(PER_PAGE == 50);
    let n = page_count(total);
    assert((page - 1) * 50 <= (n - 1) * 50) by (nonlinear_arith)
        requires
            page <= n,
    ;
    if page < n {
        assert(page * 50 <= (n - 1) * 50) by (nonlinear_arith)
            requires
                page <= n - 1,
        ;
    }
}

/// A message of a fetch response, or the error in its place.
pub struct FetchedMessage {
    pub uid: Option<u32>,
    pub envelope: Option<Envelope>,
    pub flags: Vec<Flag>,
}

/// Why a fetch response cannot be read: an error in the response, or a message
/// without the part asked for.
#[derive(Debug)]
pub enum FetchError {
    Response(String),
    NoUid,
    NoEnvelope,
}

impl FetchError {
    /// The error in words.
    pub open spec fn text(self) -> Text {
        match self {
            FetchError::Response(e) => e@,
            FetchError::NoUid => "No UID"@,
            FetchError::NoEnvelope => "No envelope"@,
        }
    }

    /// The error in words.
    pub fn message(self) -> (r: String)
        ensures
            r@ == self.text(),
    {
        match self {
            FetchError::Response(e) => e,
            FetchError::NoUid => "No UID".to_owned(),
            FetchError::NoEnvelope => "No envelope".to_owned(),
        }
    }
}

/// The header of one message of a fetch response.
pub open spec fn header_of(msg: Result<FetchedMessage, String>) -> Result<MailHeaderModel, FetchError> {
    match msg {
        Err(e) => Err(FetchError::Response(e)),
        Ok(m) => match (m.uid, m.envelope) {
            (None, _) => Err(FetchError::NoUid),
            (Some(_), None) => Err(FetchError::NoEnvelope),
            (Some(uid), Some(envelope)) => Ok(envelope_header(uid, envelope, flag_texts(m.flags@))),
        },
    }
}

/// The first message of a response that cannot be read, or the length of the
/// response.
pub open spec fn first_bad(msgs: Seq<Result<FetchedMessage, String>>) -> int
    decreases msgs.len(),
{
    if msgs.len() == 0 {
        0
    } else {
        let before = first_bad(msgs.drop_last());
        if before < msgs.len() - 1 {
            before
        } else if header_of(msgs.last()) is Err {
            msgs.len() - 1
        } else {
            msgs.len() as int
        }
    }
}

/// The headers of a response whose messages can all be read.
pub open spec fn headers_of(msgs: Seq<Result<FetchedMessage, String>>) -> Seq<MailHeaderModel> {
    Seq::new(msgs.len(), |i: int| header_of(msgs[i])->Ok_0)
}

/// Reads one message of a fetch response.
pub fn read_fetched(msg: Result<FetchedMessage, String>) -> (r: Result<MailHeader, FetchError>)
    ensures
        match (r, header_of(msg)) {
            (Ok(h), Ok(m)) => h@ == m,
            (Err(e), Err(x)) => e == x,
            _ => false,
        },
{
    match msg {
        Err(e) => Err(FetchError::Response(e)),
        Ok(m) => match m.uid {
            None => Err(FetchError::NoUid),
            Some(uid) => match m.envelope {
                None => Err(FetchError::NoEnvelope),
                Some(envelope) => {
                    let flags = fetch_flags(&m.flags);
                    Ok(parse_envelope_header(uid, &envelope, flags))
                },
            },
        },
    }
}

/// Reads the headers of a fetch response in the server's order. One message
/// that cannot be read fails the whole response; the first such message says
/// why.
pub fn read_headers(msgs: Vec<Result<FetchedMessage, String>>) -> (r: Result<
    Vec<MailHeader>,
    FetchError,
>)
    ensures
        match r {
            Ok(headers) => first_bad(msgs@) == msgs@.len() && headers.deep_view() == headers_of(msgs@),
            Err(e) => 0 <= first_bad(msgs@) < msgs@.len() && header_of(msgs@[first_bad(msgs@)])
                == Err::<MailHeaderModel, FetchError>(e),
        },
{
    let ghost all = msgs@;
    let mut headers: Vec<MailHeader> = Vec::new();
    let mut left = msgs;
    let ghost mut n: int = 0;
    assert(headers.deep_view() =~= headers_of(all.take(0)));
    assert(left@ =~= all.skip(0));
    while left.len() > 0
        invariant
            all == msgs@,
            0 <= n <= all.len(),
            left@ == all.skip(n),
            first_bad(all.take(n)) == n,
            headers.deep_view() == headers_of(all.take(n)),
        decreases left@.len(),
    {
        let ghost held = headers.deep_view();
        let msg = left.remove(0);
        proof {
            assert(msg == all[n]);
            assert(left@ =~= all.skip(n + 1));
            assert(all.take(n + 1).drop_last() =~= all.take(n));
            assert(all.take(n + 1).last() == msg);
        }
        match read_fetched(msg) {
            Ok(header) => {
                headers.push(header);
                assert(headers.deep_view() =~= held.push(header@));
                assert(headers_of(all.take(n + 1)) =~= held.push(header@));
            },
            Err(e) => {
                proof {
                    assert(first_bad(all.take(n + 1)) == n);
                    lemma_first_bad_stays(all, n + 1);
                }
                return Err(e);
            },
        }
        proof {
            n = n + 1;
        }
    }
    assert(n == all.len());
    assert(all.take(n) =~= all);
    Ok(headers)
}

/// The headers with at least the UID `first_uid`, in their order.
pub open spec fn at_least(headers: Seq<MailHeaderModel>, first_uid: u32) -> Seq<MailHeaderModel> {
    headers.filter(|h: MailHeaderModel| h.uid >= first_uid)
}

/// Reads the headers out of the response to a [`from_uid_query`]. In such a
/// range a server reads `*` as its highest UID, so a mailbox without newer mail
/// answers with its last message; what lies below `first_uid` was not asked for
/// and is left out.
pub fn read_headers_from(first_uid: u32, msgs: Vec<Result<FetchedMessage, String>>) -> (r: Result<
    Vec<MailHeader>,
    FetchError,
>)
    ensures
        match r {
            Ok(headers) => first_bad(msgs@) == msgs@.len() && headers.deep_view() == at_least(
                headers_of(msgs@),
                first_uid,
            ),
            Err(e) => 0 <= first_bad(msgs@) < msgs@.len() && header_of(msgs@[first_bad(msgs@)])
                == Err::<MailHeaderModel, FetchError>(e),
        },
{
    match read_headers(msgs) {
        Ok(headers) => Ok(keep_from(headers, first_uid)),
        Err(e) => Err(e),
    }
}

/// Leaves out the headers below `first_uid`.
fn keep_from(headers: Vec<MailHeader>, first_uid: u32) -> (r: Vec<MailHeader>)
    ensures
        r.deep_view() == at_least(headers.deep_view(), first_uid),
{
    let ghost all = headers.deep_view();
    let ghost sent = headers@;
    let ghost wanted = |h: MailHeaderModel| h.uid >= first_uid;
    let mut left = headers;
    let mut r: Vec<MailHeader> = Vec::new();
    let ghost mut n: int = 0;
    assert(left@ =~= sent.skip(0));
    proof {
        reveal(Seq::filter);
        assert(r.deep_view() =~= all.take(0).filter(wanted));
    }
    while left.len() > 0
        invariant
            all == headers.deep_view(),
            sent == headers@,
            0 <= n <= all.len(),
            left@ == sent.skip(n),
            wanted == (|h: MailHeaderModel| h.uid >= first_uid),
            r.deep_view() == all.take(n).filter(wanted),
        decreases left@.len(),
    {
        let ghost held = r.deep_view();
        let header = left.remove(0);
        proof {
            assert(header == sent[n]);
            assert(header@ == all[n]);
            assert(left@ =~= sent.skip(n + 1));
            reveal(Seq::filter);
            assert(all.take(n + 1).drop_last() =~= all.take(n));
            assert(all.take(n + 1).last() == header@);
        }
        if header.uid >= first_uid {
            r.push(header);
            assert(r.deep_view() =~= held.push(header@));
        }
        proof {
            n = n + 1;
        }
    }
    assert(n == all.len());
    assert(all.take(n) =~= all);
    r
}

/// Of the response to a query from `first_uid` on no header below it is kept,
/// whatever else the server sent.
pub proof fn law_only_newer_headers_are_read(msgs: Seq<Result<FetchedMessage, String>>, first_uid: u32)
    ensures
        forall|h: MailHeaderModel|
            #[trigger] at_least(headers_of(msgs), first_uid).contains(h) <==> headers_of(msgs).contains(h)
                && h.uid >= first_uid,
{
    let wanted = |h: MailHeaderModel| h.uid >= first_uid;
    let all = headers_of(msgs);
    assert forall|h: MailHeaderModel| #[trigger] at_least(all, first_uid).contains(h) <==> all.contains(h)
        && h.uid >= first_uid by {
        if all.contains(h) && h.uid >= first_uid {
            let i = choose|i: int| 0 <= i < all.len() && all[i] == h;
            all.lemma_filter_contains(wanted, i);
        }
        if at_least(all, first_uid).contains(h) {
            let i = choose|i: int| 0 <= i < all.filter(wanted).len() && all.filter(wanted)[i] == h;
            all.lemma_filter_pred(wanted, i);
            all.lemma_filter_contains_rev(wanted, h);
        }
    }
}

/// A message that cannot be read in a prefix is the first such of the whole.
proof fn lemma_first_bad_stays(msgs: Seq<Result<FetchedMessage, String>>, n: int)
    requires
        0 <= n <= msgs.len(),
        first_bad(msgs.take(n)) < n,
    ensures
        first_bad(msgs) == first_bad(msgs.take(n)),
    decreases msgs.len(),
{
    if n == msgs.len() {
        assert(msgs.take(n) =~= msgs);
    } else {
        assert(msgs.drop_last().take(n) =~= msgs.take(n));
        lemma_first_bad_stays(msgs.drop_last(), n);
    }
}

/// A list the other way round: a server answers with the newest header last.
pub open spec fn turned_around(headers: Seq<MailHeaderModel>) -> Seq<MailHeaderModel> {
    headers.reverse()
}

/// Turns the order of a list around, so that the newest header comes first.
pub fn newest_first(headers: Vec<MailHeader>) -> (r: Vec<MailHeader>)
    ensures
        r.deep_view() == turned_around(headers.deep_view()),
{
    let ghost all = headers@;
    let mut left = headers;
    let mut r: Vec<MailHeader> = Vec::new();
    assert(left@ =~= all.take(all.len() as int));
    while left.len() > 0
        invariant
            left@.len() + r@.len() == all.len(),
            left@ == all.take(left@.len() as int),
            forall|i: int| 0 <= i < r@.len() ==> #[trigger] r@[i] == all[all.len() - 1 - i],
        decreases left@.len(),
    {
        if let Some(h) = left.pop() {
            r.push(h);
            assert(left@ =~= all.take(left@.len() as int));
        }
    }
    assert(r.deep_view() =~= headers.deep_view().reverse());
    r
}

/// Which messages are to be fetched for the page `page` of a mailbox with
/// `total` messages; for an empty mailbox none are.
pub fn page_query(total: u32, page: u32) -> (r: Option<String>)
    requires
        total <= u32::MAX - 50,
    ensures
        match r {
            None => total == 0,
            Some(query) => total > 0 && query@ == range_text(
                page_start(total as int, page as int) as nat,
                page_end(total as int, page as int) as nat,
            ),
        },
{
    match page_range(total, page) {
        None => None,
        Some(range) => Some(range_query(range.start, range.end)),
    }
}

/// A page of a mailbox's headers, and how many pages there are.
pub struct HeaderPage {
    pub headers: Vec<MailHeader>,
    pub total_pages: u32,
}

/// Reads the page of a mailbox with `total` messages out of the response to
/// its [`page_query`]: newest first. An empty mailbox has no pages.
pub fn fetch_headers(total: u32, msgs: Vec<Result<FetchedMessage, String>>) -> (r: Result<
    HeaderPage,
    FetchError,
>)
    requires
        total <= u32::MAX - 50,
    ensures
        match r {
            Ok(page) => if total == 0 {
                page.headers@.len() == 0 && page.total_pages == 0
            } else {
                &&& first_bad(msgs@) == msgs@.len()
                &&& page.headers.deep_view() == turned_around(headers_of(msgs@))
                &&& page.total_pages == page_count(total as int)
            },
            Err(e) => {
                &&& total > 0
                &&& 0 <= first_bad(msgs@) < msgs@.len()
                &&& header_of(msgs@[first_bad(msgs@)]) == Err::<MailHeaderModel, FetchError>(e)
            },
        },
{
    if total == 0 {
        return Ok(HeaderPage { headers: Vec::new(), total_pages: 0 });
    }
    match read_headers(msgs) {
        Ok(headers) => Ok(
            HeaderPage {
                headers: newest_first(headers),
                total_pages: (total + PER_PAGE - 1) / PER_PAGE,
            },
        ),
        Err(e) => Err(e),
    }
}

/// The source of one message in the first message of a response, or why there is
/// none.
pub open spec fn source_of(first: Option<Result<Option<Vec<u8>>, String>>) -> Result<Seq<u8>, Text> {
    match first {
        None => Err("Message not found or no body"@),
        Some(Err(e)) => Err(e@),
        Some(Ok(None)) => Err("No body"@),
        Some(Ok(Some(source))) => Ok(source@),
    }
}

/// Reads the source of one message out of the first message of the response, if
/// there is any: the message itself where it has a source, else why not.
pub fn fetch_raw(first: Option<Result<Option<Vec<u8>>, String>>) -> (r: Result<Vec<u8>, String>)
    ensures
        match (r, source_of(first)) {
            (Ok(bytes), Ok(source)) => bytes@ == source,
            (Err(e), Err(reason)) => e@ == reason,
            _ => false,
        },
        match first {
            Some(Err(e)) => r == Err::<Vec<u8>, String>(e),
            Some(Ok(Some(source))) => r == Ok::<Vec<u8>, String>(source),
            _ => r is Err,
        },
{
    match first {
        None => Err("Message not found or no body".to_owned()),
        Some(Err(e)) => Err(e),
        Some(Ok(None)) => Err("No body".to_owned()),
        Some(Ok(Some(source))) => Ok(source),
    }
}

// ── Queries ─────────────────────────────────────────────────────────────────

/// A range of message numbers in a query.
pub open spec fn range_text(start: nat, end: nat) -> Text {
    text::decimal(start) + ":"@ + text::decimal(end)
}

/// Every UID from one on in a query.
pub open spec fn from_uid_text(first_uid: nat) -> Text {
    text::decimal(first_uid) + ":*"@
}

/// One UID in a query.
pub open spec fn uid_text(uid: nat) -> Text {
    text::decimal(uid)
}

/// A range of message numbers in a query.
pub fn range_query(start: u32, end: u32) -> (r: String)
    ensures
        r@ == range_text(start as nat, end as nat),
{
    let mut r = text::to_decimal(start as u64);
    r.append(":");
    r.append(text::to_decimal(end as u64).as_str());
    r
}

/// Every UID from `first_uid` on in a query.
pub fn from_uid_query(first_uid: u32) -> (r: String)
    ensures
        r@ == from_uid_text(first_uid as nat),
{
    let mut r = text::to_decimal(first_uid as u64);
    r.append(":*");
    r
}

/// One UID in a query.
pub fn uid_query(uid: u32) -> (r: String)
    ensures
        r@ == uid_text(uid as nat),
{
    text::to_decimal(uid as u64)
}

/// The text of a `STORE` that adds or removes flags.
pub open spec fn store_text(sign: Text, flags: Seq<Text>) -> Text {
    sign + "FLAGS ("@ + text::join(flags, " "@) + ")"@
}

/// The `STORE` commands that add and remove flags: one for each side that
/// names any, adding first.
pub open spec fn store_texts(add: Seq<Text>, remove: Seq<Text>) -> Seq<Text> {
    let adding = if add.len() > 0 {
        seq![store_text("+"@, add)]
    } else {
        seq![]
    };
    let removing = if remove.len() > 0 {
        seq![store_text("-"@, remove)]
    } else {
        seq![]
    };
    adding + removing
}

/// The text of a `STORE` that adds or removes flags.
fn store_query(sign: &str, flags: &Vec<String>) -> (r: String)
    ensures
        r@ == store_text(sign@, flags.deep_view()),
{
    let mut r = sign.to_owned();
    r.append("FLAGS (");
    r.append(text::join_with(flags, " ").as_str());
    r.append(")");
    r
}

/// The `STORE` commands that add and remove flags.
pub fn store_queries(add: &Vec<String>, remove: &Vec<String>) -> (r: Vec<String>)
    ensures
        r.deep_view() == store_texts(add.deep_view(), remove.deep_view()),
{
    let mut r: Vec<String> = Vec::new();
    if add.len() > 0 {
        r.push(store_query("+", add));
    }
    if remove.len() > 0 {
        r.push(store_query("-", remove));
    }
    assert(r.deep_view() =~= store_texts(add.deep_view(), remove.deep_view()));
    r
}

/// The flags a message has after its `STORE` commands, or why they are not known.
pub open spec fn flags_after(uid: u32, responses: Seq<Vec<Flag>>) -> Result<Seq<Text>, Text> {
    if responses.len() == 0 {
        Err(
            "STORE completed but the server reported no resulting flags for UID "@ + text::decimal(
                uid as nat,
            ),
        )
    } else {
        Ok(flag_texts(responses.last()@))
    }
}

/// The flags a message has after its `STORE` commands: those of the last
/// response. Fails if there was no response.
pub fn stored_flags(uid: u32, responses: &Vec<Vec<Flag>>) -> (r: Result<Vec<String>, String>)
    ensures
        match (r, flags_after(uid, responses@)) {
            (Ok(flags), Ok(after)) => flags.deep_view() == after,
            (Err(e), Err(reason)) => e@ == reason,
            _ => false,
        },
{
    let n: usize = responses.len();
    if n == 0 {
        let mut e =
            "STORE completed but the server reported no resulting flags for UID ".to_owned();
        e.append(text::to_decimal(uid as u64).as_str());
        Err(e)
    } else {
        Ok(fetch_flags(&responses[n - 1]))
    }
}

} // verus!
