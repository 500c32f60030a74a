//! What is read out of a server's answers, and what is asked of it: headers carry
//! what their envelopes say, folders have the roles the server gives them, and
//! flags and queries are written as the protocol has them.

use vstd::prelude::*;
use vstd::string::*;
use crate::imap;
use crate::imap::{
    Address, Envelope, FetchError, FetchedMessage, Flag, ListedName, MailHeaderModel, MailboxInfoModel,
    NameAttribute, SpecialUse,
};
use crate::text;
use crate::text::Text;

verus! {

broadcast use vstd::string::group_string_axioms;

// ── Headers ─────────────────────────────────────────────────────────────────

/// Protocol text as it is; none is the empty text.
pub open spec fn as_sent(bytes: Option<Vec<u8>>, shown: Text) -> bool {
    match bytes {
        Some(b) => shown == imap::lossy_text(b@),
        None => shown.len() == 0,
    }
}

/// Protocol text with its encoded words decoded, as the value of a header line.
pub open spec fn as_decoded(bytes: Seq<u8>, shown: Text) -> bool {
    match imap::header_value(seq![88u8, 58u8, 32u8] + bytes + seq![10u8]) {
        Some(value) => shown == value,
        None => shown == imap::lossy_text(bytes),
    }
}

/// Whether a text shows an address: the mailbox, an at sign and the host, and where
/// the address has a name, that name in front and the rest in angle brackets.
pub open spec fn shows_address(a: Address, shown: Text) -> bool {
    exists|mailbox: Text, host: Text, name: Text|
        as_sent(a.mailbox, mailbox) && as_sent(a.host, host) && match a.name {
            None => shown == #[trigger] (mailbox + "@"@ + host) && #[trigger] name.len() == 0,
            Some(n) => as_decoded(n@, name) && shown == name + " <"@ + (mailbox + "@"@ + host) + ">"@,
        }
}

/// Whether a text shows the first address of a list, or nothing where there is
/// none.
pub open spec fn shows_first(addresses: Option<Vec<Address>>, shown: Text) -> bool {
    match addresses {
        Some(list) if list@.len() > 0 => shows_address(list@[0], shown),
        _ => shown.len() == 0,
    }
}

proof fn lemma_first_is_shown(addresses: Option<Vec<Address>>)
    ensures
        shows_first(addresses, imap::first_address(addresses)),
{
    if let Some(list) = addresses {
        if list@.len() > 0 {
            let a = list@[0];
            let mailbox = imap::lossy_or_empty(a.mailbox);
            let host = imap::lossy_or_empty(a.host);
            let name = match a.name {
                Some(n) => imap::decoded(n@),
                None => seq![],
            };
            let shown = imap::first_address(addresses);
            let inner = mailbox + "@"@ + host;
            assert(as_sent(a.mailbox, mailbox) && as_sent(a.host, host));
            match a.name {
                Some(n) => {
                    assert(as_decoded(n@, name));
                    assert(shown =~= name + " <"@ + inner + ">"@);
                },
                None => {
                    assert(shown == inner);
                    assert(name.len() == 0);
                },
            }
            assert(shows_address(a, shown)) by {
                let m = mailbox;
                let h = host;
                let w = name;
                assert((m + "@"@ + h) == inner && w.len() >= 0);
            }
        }
    }
}

/// A header carries what its envelope says: the UID and the flags it was fetched
/// with, the decoded subject, the first sender, the first recipient, the date and
/// the message id. What the envelope leaves out is empty.
pub proof fn law_headers_carry_what_the_envelope_says(uid: u32, envelope: Envelope, flags: Seq<Text>)
    ensures
        ({
            let h = imap::envelope_header(uid, envelope, flags);
            &&& h.uid == uid
            &&& h.flags == flags
            &&& match envelope.subject {
                Some(subject) => as_decoded(subject@, h.subject),
                None => h.subject.len() == 0,
            }
            &&& shows_first(envelope.from, h.from)
            &&& shows_first(envelope.to, h.to)
            &&& as_sent(envelope.date, h.date)
            &&& as_sent(envelope.message_id, h.message_id)
        }),
{
    lemma_first_is_shown(envelope.from);
    lemma_first_is_shown(envelope.to);
}

/// Whether a text ends in a mailbox, an at sign and a host, in angle brackets
/// behind whatever name stands there, or is just that where there is no name.
pub open spec fn ends_in_address(shown: Text, at: Text, named: bool) -> bool {
    if named {
        shown.len() >= at.len() + 3 && shown.skip(shown.len() - at.len() - 3) == " <"@ + at + ">"@
    } else {
        shown == at
    }
}

/// A recipient or sender is shown whenever the envelope has one: the text ends in
/// its mailbox, an at sign and its host, in angle brackets behind a name. It is
/// empty only where the envelope names nobody.
pub proof fn law_an_address_is_never_lost(uid: u32, envelope: Envelope, flags: Seq<Text>)
    ensures
        ({
            let h = imap::envelope_header(uid, envelope, flags);
            &&& match envelope.to {
                Some(list) if list@.len() > 0 => forall|mailbox: Text, host: Text|
                    as_sent(list@[0].mailbox, mailbox) && as_sent(list@[0].host, host)
                        ==> ends_in_address(
                        h.to,
                        #[trigger] (mailbox + "@"@ + host),
                        list@[0].name is Some,
                    ),
                _ => h.to.len() == 0,
            }
            &&& match envelope.from {
                Some(list) if list@.len() > 0 => forall|mailbox: Text, host: Text|
                    as_sent(list@[0].mailbox, mailbox) && as_sent(list@[0].host, host)
                        ==> ends_in_address(
                        h.from,
                        #[trigger] (mailbox + "@"@ + host),
                        list@[0].name is Some,
                    ),
                _ => h.from.len() == 0,
            }
            &&& h.to.len() == 0 <==> (envelope.to is None || envelope.to->0@.len() == 0)
            &&& h.from.len() == 0 <==> (envelope.from is None || envelope.from->0@.len() == 0)
        }),
{
    lemma_tails(envelope.to);
    lemma_tails(envelope.from);
}

proof fn lemma_tails(addresses: Option<Vec<Address>>)
    ensures
        match addresses {
            Some(list) if list@.len() > 0 => forall|mailbox: Text, host: Text|
                as_sent(list@[0].mailbox, mailbox) && as_sent(list@[0].host, host)
                    ==> ends_in_address(
                    imap::first_address(addresses),
                    #[trigger] (mailbox + "@"@ + host),
                    list@[0].name is Some,
                ),
            _ => imap::first_address(addresses).len() == 0,
        },
        imap::first_address(addresses).len() == 0 <==> (addresses is None || addresses->0@.len() == 0),
{
    reveal_strlit("@");
    reveal_strlit(" <");
    reveal_strlit(">");
    if let Some(list) = addresses {
        if list@.len() > 0 {
            let a = list@[0];
            assert forall|mailbox: Text, host: Text|
                as_sent(a.mailbox, mailbox) && as_sent(a.host, host) implies ends_in_address(
                imap::first_address(addresses),
                #[trigger] (mailbox + "@"@ + host),
                a.name is Some,
            ) by {
                lemma_tail(a, mailbox, host, imap::first_address(addresses), addresses);
            }
            let m = imap::lossy_or_empty(a.mailbox);
            let h = imap::lossy_or_empty(a.host);
            lemma_tail(a, m, h, imap::first_address(addresses), addresses);
            assert((m + "@"@ + h).len() >= 1);
        }
    }
}

proof fn lemma_tail(a: Address, mailbox: Text, host: Text, shown: Text, list: Option<Vec<Address>>)
    requires
        list is Some,
        list->0@.len() > 0,
        list->0@[0] == a,
        as_sent(a.mailbox, mailbox),
        as_sent(a.host, host),
        shown == imap::first_address(list),
    ensures
        ends_in_address(shown, mailbox + "@"@ + host, a.name is Some),
{
    reveal_strlit(" <");
    reveal_strlit(">");
    let at = mailbox + "@"@ + host;
    assert(imap::lossy_or_empty(a.mailbox) =~= mailbox);
    assert(imap::lossy_or_empty(a.host) =~= host);
    if let Some(n) = a.name {
        let name = imap::decoded(n@);
        assert(shown =~= name + (" <"@ + at + ">"@));
        assert(shown.skip(name.len() as int) =~= " <"@ + at + ">"@);
    }
}

/// A response is read message by message: each header is that of the message at its
/// place, and the first message without a UID or an envelope, or that the server
/// failed on, fails the response with its own reason.
pub proof fn law_a_response_is_read_message_by_message(msgs: Seq<Result<FetchedMessage, String>>, i: int)
    requires
        0 <= i < msgs.len(),
    ensures
        match msgs[i] {
            Ok(m) => match (m.uid, m.envelope) {
                (Some(uid), Some(envelope)) => imap::header_of(msgs[i]) == Ok::<
                    MailHeaderModel,
                    FetchError,
                >(imap::envelope_header(uid, envelope, imap::flag_texts(m.flags@)))
                    && imap::headers_of(msgs)[i] == imap::envelope_header(
                    uid,
                    envelope,
                    imap::flag_texts(m.flags@),
                ),
                (None, _) => imap::header_of(msgs[i]) matches Err(e) && e.text() == "No UID"@,
                (Some(_), None) => imap::header_of(msgs[i]) matches Err(e) && e.text()
                    == "No envelope"@,
            },
            Err(reason) => imap::header_of(msgs[i]) matches Err(e) && e.text() == reason@,
        },
        imap::headers_of(msgs).len() == msgs.len(),
        0 <= imap::first_bad(msgs) <= msgs.len(),
        imap::first_bad(msgs) < msgs.len() ==> imap::header_of(msgs[imap::first_bad(msgs)]) is Err,
        i < imap::first_bad(msgs) ==> imap::header_of(msgs[i]) is Ok,
{
    lemma_first_bad(msgs);
}

proof fn lemma_first_bad(msgs: Seq<Result<FetchedMessage, String>>)
    ensures
        0 <= imap::first_bad(msgs) <= msgs.len(),
        imap::first_bad(msgs) < msgs.len() ==> imap::header_of(msgs[imap::first_bad(msgs)]) is Err,
        forall|i: int|
            0 <= i < imap::first_bad(msgs) ==> imap::header_of(#[trigger] msgs[i]) is Ok,
    decreases msgs.len(),
{
    if msgs.len() > 0 {
        let few = msgs.drop_last();
        lemma_first_bad(few);
        assert forall|i: int| 0 <= i < imap::first_bad(msgs) implies imap::header_of(
            #[trigger] msgs[i],
        ) is Ok by {
            if i < few.len() {
                assert(few[i] == msgs[i]);
            }
        }
    }
}

/// A page lists the last message of the response first.
pub proof fn law_the_newest_message_comes_first(headers: Seq<MailHeaderModel>, i: int)
    requires
        0 <= i < headers.len(),
    ensures
        imap::turned_around(headers).len() == headers.len(),
        imap::turned_around(headers)[i] == headers[headers.len() - 1 - i],
{
}

/// A page holds fifty messages, the last one what is left; a page that is asked for
/// beyond the first or the last is the nearest there is.
pub proof fn law_a_page_holds_fifty_messages(total: int, page: int)
    requires
        total > 0,
    ensures
        ({
            let n = imap::page_count(total);
            &&& (n - 1) * 50 < total <= n * 50
            &&& 1 <= page < n ==> imap::page_end(total, page) - imap::page_start(total, page) + 1 == 50
            &&& 1 <= page <= n ==> imap::nearest_page(total, page) == page
            &&& page < 1 ==> imap::nearest_page(total, page) == 1
            &&& page > n ==> imap::nearest_page(total, page) == n
            &&& 1 <= page <= n ==> imap::page_end(total, page) == total - (page - 1) * 50
        }),
{
    assert(imap::PER_PAGE == 50);
    let n = imap::page_count(total);
    if 1 <= page < n {
        assert(page * 50 <= (n - 1) * 50) by (nonlinear_arith)
            requires
                page <= n - 1,
        ;
    }
}

/// Messages below a UID are left out and the others keep their order.
pub proof fn law_newer_headers_keep_their_order(
    a: Seq<MailHeaderModel>,
    b: Seq<MailHeaderModel>,
    h: MailHeaderModel,
    first_uid: u32,
)
    ensures
        imap::at_least(a + b, first_uid) == imap::at_least(a, first_uid) + imap::at_least(b, first_uid),
        h.uid >= first_uid ==> imap::at_least(seq![h], first_uid) == seq![h],
        h.uid < first_uid ==> imap::at_least(seq![h], first_uid) == Seq::<MailHeaderModel>::empty(),
{
    let wanted = |h: MailHeaderModel| h.uid >= first_uid;
    Seq::filter_distributes_over_add(a, b, wanted);
    reveal(Seq::filter);
    let one = seq![h];
    assert(one.drop_last() =~= Seq::<MailHeaderModel>::empty());
    assert(one.last() == h);
    assert(one.drop_last().filter(wanted) =~= Seq::<MailHeaderModel>::empty());
    assert(one.filter(wanted) =~= if h.uid >= first_uid {
        seq![h]
    } else {
        Seq::<MailHeaderModel>::empty()
    });
}

/// The source of a message is what the server sent of it, byte for byte.
pub proof fn law_a_source_is_what_was_sent(source: Vec<u8>, error: String)
    ensures
        imap::source_of(Some(Ok(Some(source)))) == Ok::<Seq<u8>, Text>(source@),
        imap::source_of(Some(Ok(None))) == Err::<Seq<u8>, Text>("No body"@),
        imap::source_of(Some(Err(error))) == Err::<Seq<u8>, Text>(error@),
        imap::source_of(None) == Err::<Seq<u8>, Text>("Message not found or no body"@),
{
}

/// What the server says of a mailbox is taken as it is; what it leaves out is zero.
pub proof fn law_a_mailbox_is_in_the_state_the_server_says(validity: u32, next: u32)
    ensures
        imap::state_of(Some(validity), Some(next)).uid_validity == validity,
        imap::state_of(Some(validity), Some(next)).uid_next == next,
        imap::state_of(None, Some(next)).uid_validity == 0,
        imap::state_of(None, Some(next)).uid_next == next,
        imap::state_of(Some(validity), None).uid_validity == validity,
        imap::state_of(Some(validity), None).uid_next == 0,
{
}

// ── Folders ─────────────────────────────────────────────────────────────────

/// A folder whose only attribute gives it a role has that role, whatever it is
/// called.
pub proof fn law_the_server_says_which_folder_is_which(name: Text, delimiter: Option<Text>)
    ensures
        imap::listed(name, delimiter, seq![NameAttribute::Sent]).special_use == Some(SpecialUse::Sent),
        imap::listed(name, delimiter, seq![NameAttribute::Drafts]).special_use == Some(
            SpecialUse::Drafts,
        ),
        imap::listed(name, delimiter, seq![NameAttribute::Trash]).special_use == Some(
            SpecialUse::Trash,
        ),
        imap::listed(name, delimiter, seq![NameAttribute::Archive]).special_use == Some(
            SpecialUse::Archive,
        ),
        imap::listed(name, delimiter, seq![NameAttribute::Junk]).special_use == Some(SpecialUse::Junk),
{
    reveal_with_fuel(imap::attributes_use, 2);
    assert(seq![NameAttribute::Sent].first() == NameAttribute::Sent);
    assert(seq![NameAttribute::Drafts].first() == NameAttribute::Drafts);
    assert(seq![NameAttribute::Trash].first() == NameAttribute::Trash);
    assert(seq![NameAttribute::Archive].first() == NameAttribute::Archive);
    assert(seq![NameAttribute::Junk].first() == NameAttribute::Junk);
}

/// Each attribute that names a role gives that role, and no other attribute gives
/// one.
pub proof fn law_an_attribute_gives_the_role_of_its_name(other: String)
    ensures
        imap::attribute_use(NameAttribute::Sent) == Some(SpecialUse::Sent),
        imap::attribute_use(NameAttribute::Drafts) == Some(SpecialUse::Drafts),
        imap::attribute_use(NameAttribute::Trash) == Some(SpecialUse::Trash),
        imap::attribute_use(NameAttribute::Archive) == Some(SpecialUse::Archive),
        imap::attribute_use(NameAttribute::Junk) == Some(SpecialUse::Junk),
        imap::attribute_use(NameAttribute::NoInferiors) is None,
        imap::attribute_use(NameAttribute::NoSelect) is None,
        imap::attribute_use(NameAttribute::Marked) is None,
        imap::attribute_use(NameAttribute::Unmarked) is None,
        imap::attribute_use(NameAttribute::All) is None,
        imap::attribute_use(NameAttribute::Flagged) is None,
        imap::attribute_use(NameAttribute::Other(other)) is None,
{
}

/// The role that one attribute gives.
pub open spec fn role(attribute: NameAttribute) -> Option<SpecialUse> {
    match attribute {
        NameAttribute::Archive => Some(SpecialUse::Archive),
        NameAttribute::Drafts => Some(SpecialUse::Drafts),
        NameAttribute::Junk => Some(SpecialUse::Junk),
        NameAttribute::Sent => Some(SpecialUse::Sent),
        NameAttribute::Trash => Some(SpecialUse::Trash),
        NameAttribute::NoInferiors | NameAttribute::NoSelect | NameAttribute::Marked
        | NameAttribute::Unmarked | NameAttribute::All | NameAttribute::Flagged
        | NameAttribute::Other(_) => None,
    }
}

/// A folder keeps its name and delimiter. The first attribute that gives a role
/// decides; without one, its name does. It cannot be selected exactly if the server
/// says so.
pub proof fn law_a_folder_is_listed_as_the_server_has_it(
    name: Text,
    delimiter: Option<Text>,
    attributes: Seq<NameAttribute>,
    i: int,
)
    ensures
        ({
            let folder = imap::listed(name, delimiter, attributes);
            &&& folder.name == name && folder.delimiter == delimiter
            &&& folder.noselect <==> exists|k: int|
                0 <= k < attributes.len() && #[trigger] attributes[k] == NameAttribute::NoSelect
            &&& 0 <= i < attributes.len() && role(attributes[i]) is Some && (forall|k: int|
                0 <= k < i ==> role(#[trigger] attributes[k]) is None) ==> folder.special_use == role(
                attributes[i],
            )
            &&& (forall|k: int| 0 <= k < attributes.len() ==> role(#[trigger] attributes[k]) is None)
                ==> folder.special_use == imap::name_use(name)
        }),
{
    lemma_attributes(attributes, i);
    let folder = imap::listed(name, delimiter, attributes);
    if folder.noselect {
        let k = choose|k: int| 0 <= k < attributes.len() && #[trigger] attributes[k] is NoSelect;
        assert(attributes[k] == NameAttribute::NoSelect);
    }
    if exists|k: int| 0 <= k < attributes.len() && #[trigger] attributes[k] == NameAttribute::NoSelect {
        let k = choose|k: int|
            0 <= k < attributes.len() && #[trigger] attributes[k] == NameAttribute::NoSelect;
        assert(attributes[k] is NoSelect);
    }
}

proof fn lemma_attributes(attributes: Seq<NameAttribute>, i: int)
    ensures
        0 <= i < attributes.len() && role(attributes[i]) is Some && (forall|k: int|
            0 <= k < i ==> role(#[trigger] attributes[k]) is None) ==> imap::attributes_use(attributes)
            == role(attributes[i]),
        (forall|k: int| 0 <= k < attributes.len() ==> role(#[trigger] attributes[k]) is None)
            ==> imap::attributes_use(attributes) is None,
    decreases attributes.len(),
{
    if attributes.len() > 0 {
        let rest = attributes.drop_first();
        lemma_attributes(rest, i - 1);
        assert(imap::attribute_use(attributes.first()) == role(attributes[0]));
        if i > 0 && i < attributes.len() {
            assert(rest[i - 1] == attributes[i]);
            if forall|k: int| 0 <= k < i ==> role(#[trigger] attributes[k]) is None {
                assert forall|k: int| 0 <= k < i - 1 implies role(#[trigger] rest[k]) is None by {
                    assert(rest[k] == attributes[k + 1]);
                }
            }
        }
        if forall|k: int| 0 <= k < attributes.len() ==> role(#[trigger] attributes[k]) is None {
            assert forall|k: int| 0 <= k < rest.len() implies role(#[trigger] rest[k]) is None by {
                assert(rest[k] == attributes[k + 1]);
            }
        }
    }
}

/// A folder without a role from the server has the one its whole name stands for,
/// in any case, and no other name stands for one.
pub proof fn law_a_conventional_name_gives_a_role(name: Text)
    ensures
        ({
            let n = text::lower(name);
            &&& n == "inbox"@ ==> imap::name_use(name) == Some(SpecialUse::Inbox)
            &&& n == "sent"@ || n == "sent items"@ || n == "sent mail"@ ==> imap::name_use(name)
                == Some(SpecialUse::Sent)
            &&& n == "drafts"@ ==> imap::name_use(name) == Some(SpecialUse::Drafts)
            &&& n == "trash"@ || n == "deleted items"@ ==> imap::name_use(name) == Some(
                SpecialUse::Trash,
            )
            &&& n == "archive"@ ==> imap::name_use(name) == Some(SpecialUse::Archive)
            &&& n == "junk"@ || n == "spam"@ || n == "junk e-mail"@ ==> imap::name_use(name) == Some(
                SpecialUse::Junk,
            )
            &&& imap::name_use(name) is Some ==> (n == "inbox"@ || n == "sent"@ || n == "sent items"@
                || n == "sent mail"@ || n == "drafts"@ || n == "trash"@ || n == "deleted items"@ || n
                == "archive"@ || n == "junk"@ || n == "spam"@ || n == "junk e-mail"@)
        }),
{
    reveal_strlit("inbox");
    reveal_strlit("sent");
    reveal_strlit("sent items");
    reveal_strlit("sent mail");
    reveal_strlit("drafts");
    reveal_strlit("trash");
    reveal_strlit("deleted items");
    reveal_strlit("archive");
    reveal_strlit("junk");
    reveal_strlit("spam");
    reveal_strlit("junk e-mail");
    let n = text::lower(name);
    assert("inbox"@[0] == 'i' && "trash"@[0] == 't' && "drafts"@[0] == 'd' && "archive"@[0] == 'a');
    assert("sent"@[1] == 'e' && "spam"@[1] == 'p' && "junk"@[0] == 'j');
    assert("junk e-mail"@[0] == 'j' && "sent mail"@[0] == 's' && "sent items"@[0] == 's');
    assert("deleted items"@[0] == 'd' && "sent"@[0] == 's' && "spam"@[0] == 's');
    assert("deleted items"@.len() == 13 && "drafts"@.len() == 6);
}

/// Every name that the server lists is listed, in its order and as the server has
/// it; names it failed on are left out.
pub proof fn law_every_name_is_listed(before: Seq<Option<ListedName>>, after: Seq<Option<ListedName>>, name: ListedName)
    ensures
        imap::listing(before + after) == imap::listing(before) + imap::listing(after),
        imap::listing(seq![Some(name)]) == seq![
            imap::listed(name.name@, name.delimiter.deep_view(), name.attributes@),
        ],
        imap::listing(seq![None]) == Seq::<MailboxInfoModel>::empty(),
        imap::listing(seq![]) == Seq::<MailboxInfoModel>::empty(),
    decreases after.len(),
{
    if after.len() == 0 {
        assert(before + after =~= before);
        assert(imap::listing(before) + imap::listing(after) =~= imap::listing(before));
    } else {
        let few = after.drop_last();
        law_every_name_is_listed(before, few, name);
        assert((before + after).drop_last() =~= before + few);
        assert((before + after).last() == after.last());
        assert(imap::listing(before + after) =~= imap::listing(before) + imap::listing(after));
    }
    let one = seq![Some(name)];
    assert(one.drop_last() =~= seq![]);
    assert(imap::listing(one.drop_last()) =~= seq![]);
    assert(imap::listing(one) =~= seq![name.info()]);
    let none: Seq<Option<ListedName>> = seq![None];
    assert(none.drop_last() =~= seq![]);
    assert(imap::listing(none) =~= seq![]);
}

// ── Flags ───────────────────────────────────────────────────────────────────

/// Each flag is written as the protocol has it, and one of the server's own as it
/// is.
pub proof fn law_flags_are_written_as_the_protocol_has_them(flags: Seq<Flag>, i: int, own: String)
    ensures
        imap::flag_text(Flag::Seen) == "\\Seen"@,
        imap::flag_text(Flag::Answered) == "\\Answered"@,
        imap::flag_text(Flag::Flagged) == "\\Flagged"@,
        imap::flag_text(Flag::Deleted) == "\\Deleted"@,
        imap::flag_text(Flag::Draft) == "\\Draft"@,
        imap::flag_text(Flag::Recent) == "\\Recent"@,
        imap::flag_text(Flag::MayCreate) == "\\*"@,
        imap::flag_text(Flag::Custom(own)) == own@,
        imap::flag_texts(flags).len() == flags.len(),
        0 <= i < flags.len() ==> imap::flag_texts(flags)[i] == imap::flag_text(flags[i]),
{
}

/// A message is read exactly if it has the flag for that, in any case, and starred
/// likewise; other flags do not matter.
pub proof fn law_read_and_starred_are_what_the_flags_say(h: MailHeaderModel, other: Text, i: int)
    ensures
        h.is_seen() <==> exists|k: int|
            0 <= k < h.flags.len() && text::lower(#[trigger] h.flags[k]) == text::lower("\\Seen"@),
        h.is_flagged() <==> exists|k: int|
            0 <= k < h.flags.len() && text::lower(#[trigger] h.flags[k]) == text::lower("\\Flagged"@),
        0 <= i < h.flags.len() && h.flags[i] == "\\Seen"@ ==> h.is_seen(),
        0 <= i < h.flags.len() && h.flags[i] == "\\Flagged"@ ==> h.is_flagged(),
        h.flags.len() == 0 ==> !h.is_seen() && !h.is_flagged(),
{
}

/// The flags after a change are those of the server's last answer, and there is no
/// telling them without one.
pub proof fn law_the_last_answer_tells_the_flags(uid: u32, responses: Seq<Vec<Flag>>)
    ensures
        responses.len() > 0 ==> imap::flags_after(uid, responses) == Ok::<Seq<Text>, Text>(
            imap::flag_texts(responses[responses.len() - 1]@),
        ),
        responses.len() == 0 ==> imap::flags_after(uid, responses) == Err::<Seq<Text>, Text>(
            "STORE completed but the server reported no resulting flags for UID "@ + text::decimal(
                uid as nat,
            ),
        ),
{
}

/// Flags to be added are asked to be added and flags to be removed to be removed,
/// in that order; where there is nothing to add or remove nothing is asked.
pub proof fn law_flags_are_asked_to_be_added_and_removed(add: Seq<Text>, remove: Seq<Text>)
    ensures
        ({
            let asked = imap::store_texts(add, remove);
            let plus = "+FLAGS ("@ + text::join(add, " "@) + ")"@;
            let minus = "-FLAGS ("@ + text::join(remove, " "@) + ")"@;
            &&& add.len() > 0 && remove.len() > 0 ==> asked == seq![plus, minus]
            &&& add.len() > 0 && remove.len() == 0 ==> asked == seq![plus]
            &&& add.len() == 0 && remove.len() > 0 ==> asked == seq![minus]
            &&& add.len() == 0 && remove.len() == 0 ==> asked == Seq::<Text>::empty()
        }),
{
    reveal_strlit("+FLAGS (");
    reveal_strlit("-FLAGS (");
    reveal_strlit("FLAGS (");
    reveal_strlit("+");
    reveal_strlit("-");
    assert("+"@ + "FLAGS ("@ =~= "+FLAGS ("@);
    assert("-"@ + "FLAGS ("@ =~= "-FLAGS ("@);
    let asked = imap::store_texts(add, remove);
    let plus = "+FLAGS ("@ + text::join(add, " "@) + ")"@;
    let minus = "-FLAGS ("@ + text::join(remove, " "@) + ")"@;
    assert(imap::store_text("+"@, add) =~= plus);
    assert(imap::store_text("-"@, remove) =~= minus);
    if add.len() > 0 && remove.len() > 0 {
        assert(asked =~= seq![plus, minus]);
    } else if add.len() > 0 {
        assert(asked =~= seq![plus]);
    } else if remove.len() > 0 {
        assert(asked =~= seq![minus]);
    } else {
        assert(asked =~= Seq::<Text>::empty());
    }
}

/// A range is asked for by its ends, everything from a UID on up to the last, and
/// one message by its UID.
pub proof fn law_messages_are_asked_for_by_number(a: nat, b: nat)
    ensures
        imap::range_text(a, b) == text::decimal(a) + ":"@ + text::decimal(b),
        imap::from_uid_text(a) == text::decimal(a) + ":*"@,
        imap::uid_text(a) == text::decimal(a),
{
}

} // verus!
