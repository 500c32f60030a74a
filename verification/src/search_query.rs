//! What is typed into the search box, as a query of the full-text index.

use vstd::prelude::*;
use vstd::string::*;
use crate::text;
use crate::text::Text;

verus! {

broadcast use vstd::string::group_string_axioms;

/// A text with each quotation mark written twice.
pub open spec fn doubled_quotes(s: Text) -> Text
    decreases s.len(),
{
    if s.len() == 0 {
        seq![]
    } else if s.last() == '"' {
        doubled_quotes(s.drop_last()).push('"').push('"')
    } else {
        doubled_quotes(s.drop_last()).push(s.last())
    }
}

/// A text between quotation marks, so that the index takes it as it is.
pub open spec fn quoted(s: Text) -> Text {
    seq!['"'] + doubled_quotes(s) + seq!['"']
}

/// Whether a word says something about a message that the index does not know:
/// when it came, whether it was read, whether it carries files.
pub open spec fn is_unindexed(word: Text) -> bool {
    text::starts_with(word, "since:"@) || text::starts_with(word, "before:"@) || word == "is:unread"@
        || word == "has:attachment"@
}

/// A word to be looked for in one column; the column's name alone looks for
/// nothing.
pub open spec fn in_column(column: Text, word: Text) -> Option<Text> {
    if word.len() == 0 {
        None
    } else {
        Some(column + quoted(word))
    }
}

/// What a word of a search looks for.
pub open spec fn term(word: Text) -> Option<Text> {
    if is_unindexed(word) {
        None
    } else if text::starts_with(word, "from:"@) {
        in_column("from_addr:"@, word.skip("from:"@.len() as int))
    } else if text::starts_with(word, "to:"@) {
        in_column("to_addr:"@, word.skip("to:"@.len() as int))
    } else if text::starts_with(word, "subject:"@) {
        in_column("subject:"@, word.skip("subject:"@.len() as int))
    } else if text::starts_with(word, "body:"@) {
        in_column("body:"@, word.skip("body:"@.len() as int))
    } else {
        in_column(seq![], word)
    }
}

/// What the words of a search look for, in their order.
pub open spec fn terms(words: Seq<Text>) -> Seq<Text>
    decreases words.len(),
{
    if words.len() == 0 {
        seq![]
    } else {
        match term(words.last()) {
            Some(t) => terms(words.drop_last()).push(t),
            None => terms(words.drop_last()),
        }
    }
}

/// A typed search as a query: every term has to be found. A search that looks
/// for nothing has none.
pub open spec fn query_of(typed: Text) -> Option<Text> {
    let found = terms(text::words(typed));
    if found.len() == 0 {
        None
    } else {
        Some(text::join(found, " "@))
    }
}

/// A text between quotation marks.
fn quote(s: &str) -> (r: String)
    ensures
        r@ == quoted(s@),
{
    let v = text::chars_of(s);
    let mut r = String::new();
    r.push('"');
    let mut i: usize = 0;
    assert(r@ =~= seq!['"'] + doubled_quotes(v@.take(0)));
    while i < v.len()
        invariant
            v@ == s@,
            i <= v@.len(),
            r@ == seq!['"'] + doubled_quotes(v@.take(i as int)),
        decreases v@.len() - i,
    {
        let ghost held = r@;
        assert(v@.take(i + 1).drop_last() =~= v@.take(i as int));
        if v[i] == '"' {
            r.push('"');
        }
        r.push(v[i]);
        assert(r@ =~= seq!['"'] + doubled_quotes(v@.take(i + 1)));
        i += 1;
    }
    assert(v@.take(v@.len() as int) =~= v@);
    r.push('"');
    assert(r@ =~= quoted(s@));
    r
}

/// A word to be looked for in one column.
fn find_in(column: &str, word: &str) -> (r: Option<String>)
    ensures
        r.deep_view() == in_column(column@, word@),
{
    if word.is_empty() {
        return None;
    }
    let mut r = column.to_owned();
    r.append(quote(word).as_str());
    Some(r)
}

/// What a word of a search looks for.
fn term_of(word: &str) -> (r: Option<String>)
    ensures
        r.deep_view() == term(word@),
{
    if text::begins_with(word, "since:") || text::begins_with(word, "before:") || text::same(
        word,
        "is:unread",
    ) || text::same(word, "has:attachment") {
        return None;
    }
    if let Some(rest) = text::without_prefix(word, "from:") {
        return find_in("from_addr:", rest.as_str());
    }
    if let Some(rest) = text::without_prefix(word, "to:") {
        return find_in("to_addr:", rest.as_str());
    }
    if let Some(rest) = text::without_prefix(word, "subject:") {
        return find_in("subject:", rest.as_str());
    }
    if let Some(rest) = text::without_prefix(word, "body:") {
        return find_in("body:", rest.as_str());
    }
    let everywhere = "";
    proof {
        reveal_strlit("");
        assert(everywhere@ =~= seq![]);
    }
    find_in(everywhere, word)
}

/// A typed search as a query of the full-text index, if it looks for anything.
pub fn fts_match(typed: &str) -> (r: Option<String>)
    ensures
        r.deep_view() == query_of(typed@),
{
    let words = text::split_words(typed);
    let ghost all = words.deep_view();
    let mut found: Vec<String> = Vec::new();
    let mut i: usize = 0;
    assert(found.deep_view() =~= terms(all.take(0)));
    while i < words.len()
        invariant
            all == words.deep_view(),
            i <= words@.len(),
            found.deep_view() == terms(all.take(i as int)),
        decreases words@.len() - i,
    {
        let ghost held = found.deep_view();
        assert(all.take(i + 1).drop_last() =~= all.take(i as int));
        assert(all.take(i + 1).last() == words@[i as int]@);
        if let Some(t) = term_of(words[i].as_str()) {
            found.push(t);
            assert(found.deep_view() =~= held.push(t@));
        }
        i += 1;
    }
    assert(all.take(all.len() as int) =~= all);
    if found.len() == 0 {
        None
    } else {
        Some(text::join_with(&found, " "))
    }
}

/// Between its own first and last quotation mark, a quoted text holds quotation
/// marks in pairs only, so nothing that is typed ends the quotation early.
pub proof fn law_quotations_hold_quotes_in_pairs(s: Text)
    ensures
        quoted(s).len() >= 2,
        quoted(s).first() == '"',
        quoted(s).last() == '"',
        undoubled(doubled_quotes(s)) == Some(s),
    decreases s.len(),
{
    if s.len() > 0 {
        law_quotations_hold_quotes_in_pairs(s.drop_last());
        let head = doubled_quotes(s.drop_last());
        let d = doubled_quotes(s);
        assert(s.drop_last().push(s.last()) =~= s);
        if s.last() == '"' {
            assert(d.drop_last().drop_last() =~= head);
        } else {
            assert(d.drop_last() =~= head);
        }
    } else {
        assert(undoubled(doubled_quotes(s)) == Some(Seq::<char>::empty()));
        assert(s =~= Seq::<char>::empty());
    }
}

/// A text with each pair of quotation marks written once; none where a quotation
/// mark stands alone.
pub open spec fn undoubled(s: Text) -> Option<Text>
    decreases s.len(),
{
    if s.len() == 0 {
        Some(seq![])
    } else if s.last() != '"' {
        match undoubled(s.drop_last()) {
            Some(t) => Some(t.push(s.last())),
            None => None,
        }
    } else if s.len() >= 2 && s[s.len() - 2] == '"' {
        match undoubled(s.drop_last().drop_last()) {
            Some(t) => Some(t.push('"')),
            None => None,
        }
    } else {
        None
    }
}

} // verus!
