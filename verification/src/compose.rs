//! What a message being written holds, and how Reply, Reply All and Forward
//! derive it from the message they answer.
//!
//! A header keeps only the first To address, so Reply All can address at most
//! that one besides the sender.

use vstd::prelude::*;
use vstd::string::*;
use crate::html;
use crate::imap::{MailHeader, MailHeaderModel};
use crate::text;
use crate::text::Text;

verus! {

broadcast use vstd::string::group_string_axioms;

/// Everything a compose window edits.
#[derive(Debug, PartialEq)]
pub struct ComposeState {
    pub to: String,
    pub cc: String,
    pub bcc: String,
    pub subject: String,
    pub body: String,
    /// `Message-ID` of the message being replied to, angle brackets included.
    pub in_reply_to: Option<String>,
    /// The immediate parent's `Message-ID`.
    pub references: Option<String>,
    pub attachments: Vec<(String, Vec<u8>)>,
    /// The account this message is sent from, and whose Sent folder gets the
    /// copy.
    pub account_id: Option<String>,
    /// The draft this message was saved as.
    pub draft_id: Option<i64>,
}

/// What a [`ComposeState`] holds.
#[verifier::ext_equal]
pub struct ComposeModel {
    pub to: Text,
    pub cc: Text,
    pub bcc: Text,
    pub subject: Text,
    pub body: Text,
    pub in_reply_to: Option<Text>,
    pub references: Option<Text>,
    pub attachments: Seq<(Text, Seq<u8>)>,
    pub account_id: Option<Text>,
    pub draft_id: Option<i64>,
}

impl View for ComposeState {
    type V = ComposeModel;

    open spec fn view(&self) -> ComposeModel {
        ComposeModel {
            to: self.to@,
            cc: self.cc@,
            bcc: self.bcc@,
            subject: self.subject@,
            body: self.body@,
            in_reply_to: self.in_reply_to.deep_view(),
            references: self.references.deep_view(),
            attachments: self.attachments.deep_view(),
            account_id: self.account_id.deep_view(),
            draft_id: self.draft_id,
        }
    }
}

impl DeepView for ComposeState {
    type V = ComposeModel;

    open spec fn deep_view(&self) -> ComposeModel {
        self.view()
    }
}

/// A message with nothing in it.
pub open spec fn blank() -> ComposeModel {
    ComposeModel {
        to: seq![],
        cc: seq![],
        bcc: seq![],
        subject: seq![],
        body: seq![],
        in_reply_to: None,
        references: None,
        attachments: seq![],
        account_id: None,
        draft_id: None,
    }
}

/// Copies an optional string.
pub fn copy_option(s: &Option<String>) -> (r: Option<String>)
    ensures
        r.deep_view() == s.deep_view(),
{
    match s {
        Some(t) => Some(t.clone()),
        None => None,
    }
}

/// Copies a list of named files.
pub fn copy_files(v: &Vec<(String, Vec<u8>)>) -> (r: Vec<(String, Vec<u8>)>)
    ensures
        r.deep_view() == v.deep_view(),
{
    let mut r: Vec<(String, Vec<u8>)> = Vec::new();
    let mut i: usize = 0;
    assert(r.deep_view() =~= v.deep_view().take(0));
    while i < v.len()
        invariant
            i <= v@.len(),
            r.deep_view() == v.deep_view().take(i as int),
        decreases v@.len() - i,
    {
        let ghost held = r.deep_view();
        let data = v[i].1.clone();
        assert(data.deep_view() =~= v@[i as int].1.deep_view());
        r.push((v[i].0.clone(), data));
        assert(r.deep_view() =~= held.push(v.deep_view()[i as int]));
        assert(v.deep_view().take(i + 1) =~= held.push(v.deep_view()[i as int]));
        i += 1;
    }
    assert(v.deep_view().take(v@.len() as int) =~= v.deep_view());
    r
}

impl Clone for ComposeState {
    fn clone(&self) -> (r: Self)
        ensures
            r@ == self@,
    {
        ComposeState {
            to: self.to.clone(),
            cc: self.cc.clone(),
            bcc: self.bcc.clone(),
            subject: self.subject.clone(),
            body: self.body.clone(),
            in_reply_to: copy_option(&self.in_reply_to),
            references: copy_option(&self.references),
            attachments: copy_files(&self.attachments),
            account_id: copy_option(&self.account_id),
            draft_id: self.draft_id,
        }
    }
}

impl Default for ComposeState {
    fn default() -> (r: Self)
        ensures
            r@ == blank(),
    {
        let r = ComposeState {
            to: String::new(),
            cc: String::new(),
            bcc: String::new(),
            subject: String::new(),
            body: String::new(),
            in_reply_to: None,
            references: None,
            attachments: Vec::new(),
            account_id: None,
            draft_id: None,
        };
        assert(r.attachments.deep_view() =~= seq![]);
        r
    }
}

// ── Subjects ────────────────────────────────────────────────────────────────

/// Whether a text begins with `prefix`, ASCII case and leading whitespace aside.
pub open spec fn has_prefix(subject: Text, prefix: Text) -> bool {
    let s = text::trim_start(subject);
    s.len() >= prefix.len() && text::lower(s.take(prefix.len() as int)) == text::lower(prefix)
}

/// A subject with `prefix` and a space in front, unless it has the prefix.
pub open spec fn prefixed(subject: Text, prefix: Text) -> Text {
    if has_prefix(subject, prefix) {
        subject
    } else {
        prefix + " "@ + subject
    }
}

/// A subject with `prefix` and a space in front, unless it has the prefix.
pub fn add_prefix(subject: &str, prefix: &str) -> (r: String)
    ensures
        r@ == prefixed(subject@, prefix@),
{
    let s = text::trimmed_start(subject);
    let v = text::chars_of(s.as_str());
    let n: usize = prefix.unicode_len();
    if v.len() >= n {
        let head = text::string_of_range(&v, 0, n);
        assert(head@ =~= text::trim_start(subject@).take(n as int));
        if text::same_ignoring_case(head.as_str(), prefix) {
            return subject.to_owned();
        }
    }
    let mut r = prefix.to_owned();
    r.append(" ");
    r.append(subject);
    r
}

// ── Quoting ─────────────────────────────────────────────────────────────────

/// The text that `ammonia` leaves of an HTML fragment when no tag is allowed,
/// serialized: what cannot stand in text is written as an entity.
pub uninterp spec fn plain_text(html: Text) -> Text;

/// `ammonia::Builder::empty()`, whose list of allowed tags is empty, applied to
/// a fragment with `clean`. Its result depends on the fragment alone; what is
/// claimed is no more than that it has a name.
#[verifier::external_body]
fn strip_tags(html: &str) -> (r: String)
    ensures
        r@ == plain_text(html@),
{
    ammonia::Builder::empty().clean(html).to_string()
}

/// The text that a reader of an HTML fragment sees.
pub open spec fn read_text(html: Text) -> Text {
    html::unescaped(plain_text(html))
}

/// Every line with `"> "` in front.
pub open spec fn quoted_lines(plain: Text) -> Seq<Text> {
    Seq::new(text::lines(plain).len(), |i: int| "> "@ + text::lines(plain)[i])
}

/// The quoted copy of a message whose body reads `plain`: two empty lines, an
/// attribution line, and the body's lines marked as quoted.
pub open spec fn quotation(original: MailHeaderModel, plain: Text) -> Text {
    "\n\nOn "@ + original.date + ", "@ + original.from + " wrote:\n"@ + text::join(
        quoted_lines(plain),
        "\n"@,
    )
}

/// The quoted copy of a message whose body reads `plain`.
pub fn quote_plain(original: &MailHeader, plain: &str) -> (r: String)
    ensures
        r@ == quotation(original@, plain@),
{
    let lines = text::split_lines(plain);
    let ghost all = lines.deep_view();
    let mut quoted: Vec<String> = Vec::new();
    let mut i: usize = 0;
    while i < lines.len()
        invariant
            i <= lines@.len(),
            all == lines.deep_view(),
            quoted.deep_view() == Seq::new(i as nat, |i: int| "> "@ + all[i]),
        decreases lines@.len() - i,
    {
        let ghost held = quoted.deep_view();
        let mut line = "> ".to_owned();
        line.append(lines[i].as_str());
        quoted.push(line);
        assert(quoted.deep_view() =~= held.push("> "@ + all[i as int]));
        i += 1;
        assert(quoted.deep_view() =~= Seq::new(i as nat, |i: int| "> "@ + all[i]));
    }
    assert(quoted.deep_view() =~= quoted_lines(plain@));
    let mut r = "\n\nOn ".to_owned();
    r.append(original.date.as_str());
    r.append(", ");
    r.append(original.from.as_str());
    r.append(" wrote:\n");
    r.append(text::join_with(&quoted, "\n").as_str());
    r
}

/// A plain-text quoted copy of a message: an attribution line, then every line
/// of its body as its reader saw it, with the markup left out, behind `"> "`.
pub fn quote_original(original: &MailHeader, original_body_html: &str) -> (r: String)
    ensures
        r@ == quotation(original@, read_text(original_body_html@)),
{
    let stripped = strip_tags(original_body_html);
    let plain = html::unescape(stripped.as_str());
    quote_plain(original, plain.as_str())
}

// ── Derivation ──────────────────────────────────────────────────────────────

/// A text, if there is any.
pub open spec fn some_text(s: Text) -> Option<Text> {
    if s.len() == 0 {
        None
    } else {
        Some(s)
    }
}

/// A string, if it holds anything.
fn non_empty(s: &String) -> (r: Option<String>)
    ensures
        r.deep_view() == some_text(s@),
{
    if s.as_str().is_empty() {
        None
    } else {
        Some(s.clone())
    }
}

/// Whether the To address is the writer's own: it holds their address.
pub open spec fn is_mine(original_to: Text, my_address: Text) -> bool {
    my_address.len() > 0 && text::contains(original_to, my_address)
}

/// A reply to `original`, copied to `cc`, quoting the body text `plain`.
pub open spec fn reply_model(original: MailHeaderModel, plain: Text, cc: Text) -> ComposeModel {
    ComposeModel {
        to: original.from,
        cc,
        subject: prefixed(original.subject, "Re:"@),
        body: quotation(original, plain),
        in_reply_to: some_text(original.message_id),
        references: some_text(original.message_id),
        ..blank()
    }
}

/// Whom Reply All copies: the original To address unless it is the writer's.
pub open spec fn reply_all_cc(original: MailHeaderModel, my_address: Text) -> Text {
    if is_mine(original.to, my_address) {
        seq![]
    } else {
        original.to
    }
}

/// A forward of `original`, quoting the body text `plain`: it addresses nobody
/// and replies to nothing.
pub open spec fn forward_model(original: MailHeaderModel, plain: Text) -> ComposeModel {
    ComposeModel {
        subject: prefixed(original.subject, "Fwd:"@),
        body: quotation(original, plain),
        ..blank()
    }
}

/// Whether the To address is the writer's own.
fn addresses_match(original_to: &str, my_address: &str) -> (r: bool)
    ensures
        r == is_mine(original_to@, my_address@),
{
    !my_address.is_empty() && text::has(original_to, my_address)
}

impl ComposeState {
    /// This message, sent from `account_id`.
    pub fn with_account(self, account_id: Option<String>) -> (r: Self)
        ensures
            r@ == (ComposeModel { account_id: account_id.deep_view(), ..self@ }),
    {
        let mut r = self;
        r.account_id = account_id;
        r
    }

    /// A reply copied to `cc`, with the quoted body already made.
    fn from_original(original: &MailHeader, body: String, cc: String) -> (r: Self)
        ensures
            r@ == (ComposeModel {
                to: original@.from,
                cc: cc@,
                subject: prefixed(original@.subject, "Re:"@),
                body: body@,
                in_reply_to: some_text(original@.message_id),
                references: some_text(original@.message_id),
                ..blank()
            }),
    {
        let mut r = ComposeState::default();
        r.to = original.from.clone();
        r.cc = cc;
        r.subject = add_prefix(original.subject.as_str(), "Re:");
        r.body = body;
        r.in_reply_to = non_empty(&original.message_id);
        r.references = non_empty(&original.message_id);
        r
    }

    /// Reply to just the sender.
    pub fn reply(original: &MailHeader, original_body_html: &str) -> (r: Self)
        ensures
            r@ == reply_model(original@, read_text(original_body_html@), seq![]),
    {
        let body = quote_original(original, original_body_html);
        let cc = String::new();
        assert(cc@ =~= seq![]);
        Self::from_original(original, body, cc)
    }

    /// Reply to just the sender, quoting a body whose text is `plain`.
    pub fn reply_to_text(original: &MailHeader, plain: &str) -> (r: Self)
        ensures
            r@ == reply_model(original@, plain@, seq![]),
    {
        let body = quote_plain(original, plain);
        let cc = String::new();
        assert(cc@ =~= seq![]);
        Self::from_original(original, body, cc)
    }

    /// Reply to the sender and the original recipient, unless that is
    /// `my_address`.
    pub fn reply_all(original: &MailHeader, original_body_html: &str, my_address: &str) -> (r: Self)
        ensures
            r@ == reply_model(
                original@,
                read_text(original_body_html@),
                reply_all_cc(original@, my_address@),
            ),
    {
        let body = quote_original(original, original_body_html);
        let cc = if addresses_match(original.to.as_str(), my_address) {
            String::new()
        } else {
            original.to.clone()
        };
        assert(cc@ =~= reply_all_cc(original@, my_address@));
        Self::from_original(original, body, cc)
    }

    /// Forward: quotes the original like a reply does, but addresses nobody
    /// and replies to nothing.
    pub fn forward(original: &MailHeader, original_body_html: &str) -> (r: Self)
        ensures
            r@ == forward_model(original@, read_text(original_body_html@)),
    {
        let mut r = ComposeState::default();
        r.subject = add_prefix(original.subject.as_str(), "Fwd:");
        r.body = quote_original(original, original_body_html);
        r
    }
}

// ── Laws ────────────────────────────────────────────────────────────────────

/// Prefixing a subject that was already prefixed changes nothing, so replying
/// to a reply does not pile up prefixes.
pub proof fn law_prefix_is_added_once(subject: Text, prefix: Text)
    requires
        prefix.len() > 0,
        !text::is_space(prefix.first()),
    ensures
        prefixed(prefixed(subject, prefix), prefix) == prefixed(subject, prefix),
{
    if !has_prefix(subject, prefix) {
        let s = prefixed(subject, prefix);
        assert(s.first() == prefix.first());
        assert(text::trim_start(s) == s);
        assert(s.take(prefix.len() as int) =~= prefix);
    }
}

/// A reply to a reply keeps the subject.
pub proof fn law_reply_to_a_reply_keeps_the_subject(
    original: MailHeaderModel,
    plain: Text,
    cc: Text,
    again: MailHeaderModel,
    plain_again: Text,
    cc_again: Text,
)
    requires
        again.subject == reply_model(original, plain, cc).subject,
    ensures
        reply_model(again, plain_again, cc_again).subject == again.subject,
{
    reveal_strlit("Re:");
    law_prefix_is_added_once(original.subject, "Re:"@);
}

/// Reply All differs from Reply in whom it copies, and in nothing else.
pub proof fn law_reply_all_is_a_reply_with_a_copy(
    original: MailHeaderModel,
    plain: Text,
    my_address: Text,
)
    ensures
        reply_model(original, plain, reply_all_cc(original, my_address)) == (ComposeModel {
            cc: reply_all_cc(original, my_address),
            ..reply_model(original, plain, seq![])
        }),
{
}

/// Whatever Reply All copies, it is never an address that holds the writer's
/// own.
pub proof fn law_reply_all_never_copies_me(original: MailHeaderModel, my_address: Text)
    requires
        my_address.len() > 0,
    ensures
        !text::contains(reply_all_cc(original, my_address), my_address),
{
}

/// A forward quotes exactly what a reply to the same message quotes.
pub proof fn law_a_forward_quotes_what_a_reply_quotes(original: MailHeaderModel, plain: Text, cc: Text)
    ensures
        forward_model(original, plain).body == reply_model(original, plain, cc).body,
{
}

/// Replies and forwards begin with two empty lines and a line that says when the
/// message was sent and who sent it, and then quote its lines one by one, in order,
/// each behind the mark of a quotation.
pub proof fn law_a_quotation_names_when_and_who(original: MailHeaderModel, plain: Text, cc: Text)
    ensures
        ({
            let body = reply_model(original, plain, cc).body;
            let opening = "\n\nOn "@ + original.date + ", "@ + original.from + " wrote:\n"@;
            exists|marked: Seq<Text>|
                #![trigger text::join(marked, "\n"@)]
                {
                    &&& body == opening + text::join(marked, "\n"@)
                    &&& marked.len() == text::lines(plain).len()
                    &&& forall|i: int|
                        0 <= i < marked.len() ==> #[trigger] marked[i] == "> "@ + text::lines(plain)[i]
                }
        }),
        ({
            let body = forward_model(original, plain).body;
            let opening = "\n\nOn "@ + original.date + ", "@ + original.from + " wrote:\n"@;
            exists|marked: Seq<Text>|
                #![trigger text::join(marked, "\n"@)]
                {
                    &&& body == opening + text::join(marked, "\n"@)
                    &&& marked.len() == text::lines(plain).len()
                    &&& forall|i: int|
                        0 <= i < marked.len() ==> #[trigger] marked[i] == "> "@ + text::lines(plain)[i]
                }
        }),
{
    let marked = Seq::new(text::lines(plain).len(), |i: int| "> "@ + text::lines(plain)[i]);
    assert(quoted_lines(plain) =~= marked);
    let opening = "\n\nOn "@ + original.date + ", "@ + original.from + " wrote:\n"@;
    assert(reply_model(original, plain, cc).body =~= opening + text::join(marked, "\n"@));
    assert(forward_model(original, plain).body =~= opening + text::join(marked, "\n"@));
}

/// Two messages that differ in their date, or in their sender, are not quoted in
/// the same words.
pub proof fn law_a_quotation_changes_with_date_and_sender(
    original: MailHeaderModel,
    other: MailHeaderModel,
    plain: Text,
)
    ensures
        original.date == other.date && original.from != other.from ==> forward_model(
            original,
            plain,
        ).body != forward_model(other, plain).body,
        original.from == other.from && original.date != other.date ==> forward_model(
            original,
            plain,
        ).body != forward_model(other, plain).body,
        original.from == other.from && original.date == other.date ==> forward_model(
            original,
            plain,
        ).body == forward_model(other, plain).body,
{
    let head = "\n\nOn "@;
    let rest = " wrote:\n"@ + text::join(quoted_lines(plain), "\n"@);
    let a = original.date + ", "@ + original.from;
    let b = other.date + ", "@ + other.from;
    assert(quotation(original, plain) =~= head + a + rest);
    assert(quotation(other, plain) =~= head + b + rest);
    if quotation(original, plain) == quotation(other, plain) {
        let q = quotation(original, plain);
        assert(a.len() == b.len());
        assert(q.subrange(head.len() as int, (head.len() + a.len()) as int) =~= a);
        assert(q.subrange(head.len() as int, (head.len() + b.len()) as int) =~= b);
        assert(a == b);
        if original.date == other.date {
            let n = (original.date + ", "@).len() as int;
            assert(a.skip(n) =~= original.from);
            assert(b.skip(n) =~= other.from);
        }
        if original.from == other.from {
            let n = original.date.len() as int;
            assert(n == other.date.len());
            assert(a.take(n) =~= original.date);
            assert(b.take(n) =~= other.date);
        }
    }
}

/// A reply goes to the sender of the message, copies whom it is told to, carries
/// the subject behind `Re:` and names the message it answers. Nothing is attached,
/// nobody is copied blindly, and it is no draft yet.
pub proof fn law_a_reply_answers_its_message(original: MailHeaderModel, plain: Text, cc: Text)
    ensures
        ({
            let r = reply_model(original, plain, cc);
            &&& r.to == original.from
            &&& r.cc == cc
            &&& r.bcc.len() == 0
            &&& r.attachments.len() == 0
            &&& r.account_id is None
            &&& r.draft_id is None
            &&& original.message_id.len() > 0 ==> r.in_reply_to == Some(original.message_id)
                && r.references == Some(original.message_id)
            &&& original.message_id.len() == 0 ==> r.in_reply_to is None && r.references is None
            &&& r.subject == original.subject || r.subject == "Re: "@ + original.subject
            &&& r.subject == original.subject ==> {
                let kept = text::trim_start(original.subject);
                kept.len() >= 3 && text::lower(kept.take(3)) == "re:"@
            }
        }),
{
    reveal_strlit("Re:");
    reveal_strlit("re:");
    reveal_strlit(" ");
    reveal_strlit("Re: ");
    assert(text::lower("Re:"@) =~= "re:"@);
    let r = reply_model(original, plain, cc);
    assert("Re:"@ + " "@ + original.subject =~= "Re: "@ + original.subject);
    if !has_prefix(original.subject, "Re:"@) {
        assert(r.subject.len() == original.subject.len() + 4);
    }
}

/// A forward is addressed to nobody and answers nothing; it carries the subject
/// behind `Fwd:`. Nothing is attached, and it is no draft yet.
pub proof fn law_a_forward_is_addressed_to_nobody(original: MailHeaderModel, plain: Text)
    ensures
        ({
            let f = forward_model(original, plain);
            &&& f.to.len() == 0 && f.cc.len() == 0 && f.bcc.len() == 0
            &&& f.in_reply_to is None && f.references is None
            &&& f.attachments.len() == 0
            &&& f.account_id is None
            &&& f.draft_id is None
            &&& f.subject == original.subject || f.subject == "Fwd: "@ + original.subject
            &&& f.subject == original.subject ==> {
                let kept = text::trim_start(original.subject);
                kept.len() >= 4 && text::lower(kept.take(4)) == "fwd:"@
            }
        }),
{
    reveal_strlit("Fwd:");
    reveal_strlit("fwd:");
    reveal_strlit(" ");
    reveal_strlit("Fwd: ");
    assert(text::lower("Fwd:"@) =~= "fwd:"@);
    let f = forward_model(original, plain);
    assert("Fwd:"@ + " "@ + original.subject =~= "Fwd: "@ + original.subject);
    if !has_prefix(original.subject, "Fwd:"@) {
        assert(f.subject.len() == original.subject.len() + 5);
    }
}

/// A subject that begins with the prefix, in any case and behind any white space,
/// is kept as it is; every other subject gets the prefix and a space in front.
pub proof fn law_a_subject_is_prefixed_unless_it_was(subject: Text, prefix: Text)
    ensures
        ({
            let kept = text::trim_start(subject);
            if exists|rest: Text, begin: Text|
                #![trigger begin + rest]
                kept == begin + rest && text::lower(begin) == text::lower(prefix) {
                prefixed(subject, prefix) == subject
            } else {
                prefixed(subject, prefix) == prefix + " "@ + subject
            }
        }),
{
    let kept = text::trim_start(subject);
    if exists|rest: Text, begin: Text|
        #![trigger begin + rest]
        kept == begin + rest && text::lower(begin) == text::lower(prefix) {
        let (rest, begin) = choose|rest: Text, begin: Text|
            #![trigger begin + rest]
            kept == begin + rest && text::lower(begin) == text::lower(prefix);
        assert(text::lower(begin).len() == begin.len());
        assert(text::lower(prefix).len() == prefix.len());
        assert(kept.take(prefix.len() as int) =~= begin);
    } else if has_prefix(subject, prefix) {
        let begin = kept.take(prefix.len() as int);
        let rest = kept.skip(prefix.len() as int);
        assert(kept =~= begin + rest);
        assert(false);
    }
}

/// Reply All copies the recipient of the message exactly if that is not the
/// writer, and otherwise nobody.
pub proof fn law_reply_all_copies_the_recipient(original: MailHeaderModel, my_address: Text)
    ensures
        my_address.len() > 0 && text::contains(original.to, my_address) ==> reply_all_cc(
            original,
            my_address,
        ).len() == 0,
        my_address.len() == 0 || !text::contains(original.to, my_address) ==> reply_all_cc(
            original,
            my_address,
        ) == original.to,
{
}

/// What is quoted of a message is its text with the markup left out and the
/// entities read back: where the text that is left holds none, it is that text.
pub proof fn law_the_text_of_a_message_is_quoted(body: Text)
    ensures
        !plain_text(body).contains('&') ==> read_text(body) == plain_text(body),
        forall|t: Text|
            plain_text(body) == #[trigger] html::with_entities(t) ==> read_text(body) == t,
{
    if !plain_text(body).contains('&') {
        html::law_text_without_entities_stays(plain_text(body));
    }
    assert forall|t: Text| plain_text(body) == #[trigger] html::with_entities(t) implies read_text(body)
        == t by {
        html::law_unescaping_reads_entities_back(t);
    }
}

/// A new message holds nothing.
pub proof fn law_a_new_message_holds_nothing()
    ensures
        ({
            let b = blank();
            &&& b.to.len() == 0 && b.cc.len() == 0 && b.bcc.len() == 0
            &&& b.subject.len() == 0 && b.body.len() == 0
            &&& b.in_reply_to is None && b.references is None
            &&& b.attachments.len() == 0
            &&& b.account_id is None && b.draft_id is None
        }),
{
}

} // verus!
