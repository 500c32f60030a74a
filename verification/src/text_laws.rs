//! What the ways of taking text apart and putting it together do, whatever the
//! text: case, white space, words, lines, numbers, markup, search terms and file
//! names.

use vstd::prelude::*;
use vstd::string::*;
use crate::files;
use crate::form;
use crate::html;
use crate::search_query;
use crate::text;
use crate::text::Text;

verus! {

broadcast use vstd::string::group_string_axioms;

// ── Case and white space ────────────────────────────────────────────────────

/// Lower case changes the letters A to Z, each to the letter of the same place in
/// the alphabet, and nothing else.
pub proof fn law_lower_case_changes_letters_only(s: Text, t: Text, i: int)
    ensures
        text::lower(s).len() == s.len(),
        0 <= i < s.len() && 'A' <= s[i] <= 'Z' ==> text::lower(s)[i] as u32 - 'a' as u32 == s[i] as u32
            - 'A' as u32,
        0 <= i < s.len() && !('A' <= s[i] <= 'Z') ==> text::lower(s)[i] == s[i],
        text::lower(text::lower(s)) == text::lower(s),
        text::lower(s + t) == text::lower(s) + text::lower(t),
{
    assert forall|k: int| 0 <= k < s.len() implies text::lower(text::lower(s))[k] == text::lower(s)[k] by {
        let c = s[k];
        if 'A' <= c && c <= 'Z' {
            assert(text::lower_char(c) as u32 == c as u32 + 32);
        }
    }
    assert(text::lower(text::lower(s)) =~= text::lower(s));
    assert(text::lower(s + t) =~= text::lower(s) + text::lower(t));
}

/// Of the characters of ASCII, the tab, the line breaks and the space are white
/// space.
pub proof fn law_ascii_white_space(c: char)
    requires
        (c as u32) < 128,
    ensures
        text::is_space(c) <==> (c == ' ' || c == '\t' || c == '\n' || c == '\r' || c == '\u{b}' || c
            == '\u{c}'),
{
}

proof fn lemma_trim_start(s: Text) -> (k: int)
    ensures
        0 <= k <= s.len(),
        text::trim_start(s) == s.skip(k),
        forall|i: int| 0 <= i < k ==> text::is_space(#[trigger] s[i]),
        k < s.len() ==> !text::is_space(s[k]),
    decreases s.len(),
{
    if s.len() > 0 && text::is_space(s.first()) {
        let rest = s.drop_first();
        let k = lemma_trim_start(rest);
        assert(rest.skip(k) =~= s.skip(k + 1));
        assert forall|i: int| 0 <= i < k + 1 implies text::is_space(#[trigger] s[i]) by {
            if i > 0 {
                assert(rest[i - 1] == s[i]);
            }
        }
        k + 1
    } else {
        assert(s.skip(0) =~= s);
        0
    }
}

proof fn lemma_trim_end(s: Text) -> (k: int)
    ensures
        0 <= k <= s.len(),
        text::trim_end(s) == s.take(k),
        forall|i: int| k <= i < s.len() ==> text::is_space(#[trigger] s[i]),
        k > 0 ==> !text::is_space(s[k - 1]),
    decreases s.len(),
{
    if s.len() > 0 && text::is_space(s.last()) {
        let rest = s.drop_last();
        let k = lemma_trim_end(rest);
        assert(rest.take(k) =~= s.take(k));
        assert forall|i: int| k <= i < s.len() implies text::is_space(#[trigger] s[i]) by {
            if i < rest.len() {
                assert(rest[i] == s[i]);
            }
        }
        k
    } else {
        assert(s.take(s.len() as int) =~= s);
        s.len() as int
    }
}

/// Trimming takes the white space off both ends and nothing else.
pub proof fn law_trimming_takes_white_space_off_the_ends(s: Text)
    ensures
        exists|head: Text, tail: Text|
            #![trigger head + text::trim(s) + tail]
            s == head + text::trim(s) + tail && (forall|i: int|
                0 <= i < head.len() ==> text::is_space(#[trigger] head[i])) && (forall|i: int|
                0 <= i < tail.len() ==> text::is_space(#[trigger] tail[i])),
        text::trim(s).len() > 0 ==> !text::is_space(text::trim(s).first()) && !text::is_space(
            text::trim(s).last(),
        ),
{
    let k = lemma_trim_start(s);
    let from = text::trim_start(s);
    let n = lemma_trim_end(from);
    let head = s.take(k);
    let tail = from.skip(n);
    assert(s =~= head + text::trim(s) + tail);
    if text::trim(s).len() > 0 {
        assert(text::trim(s).first() == s[k]);
        assert(text::trim(s).last() == from[n - 1]);
    }
}

// ── Words ───────────────────────────────────────────────────────────────────

/// Whether a text holds no white space.
pub open spec fn unbroken(s: Text) -> bool {
    forall|i: int| 0 <= i < s.len() ==> !text::is_space(#[trigger] s[i])
}

proof fn lemma_some_word(s: Text)
    requires
        s.len() > 0,
        !text::is_space(s.last()),
    ensures
        text::words(s).len() > 0,
    decreases s.len(),
{
    if s.len() > 1 && !text::is_space(s[s.len() - 2]) {
        assert(s.drop_last().last() == s[s.len() - 2]);
        lemma_some_word(s.drop_last());
    }
}

/// White space parts words: the words of two texts with white space in between are
/// the words of the one and then those of the other. A text without white space is
/// one word.
pub proof fn law_white_space_parts_words(a: Text, c: char, b: Text)
    requires
        text::is_space(c),
    ensures
        text::words(a + seq![c] + b) == text::words(a) + text::words(b),
        unbroken(b) && b.len() > 0 ==> text::words(b) == seq![b],
        text::words(seq![]) == Seq::<Text>::empty(),
    decreases b.len(),
{
    let s = a + seq![c] + b;
    assert(text::words(seq![]) =~= Seq::<Text>::empty());
    if b.len() == 0 {
        assert(s.last() == c);
        assert(s.drop_last() =~= a);
        assert(b =~= seq![]);
        assert(text::words(a) + text::words(b) =~= text::words(a));
    } else {
        let few = b.drop_last();
        law_white_space_parts_words(a, c, few);
        assert(s.drop_last() =~= a + seq![c] + few);
        assert(s.last() == b.last());
        let x = text::words(a);
        let y = text::words(few);
        if text::is_space(b.last()) {
        } else if b.len() == 1 {
            assert(s[s.len() - 2] == c);
            assert(text::words(s) =~= x + text::words(b));
        } else {
            assert(s[s.len() - 2] == b[b.len() - 2]);
            if text::is_space(b[b.len() - 2]) {
                assert(text::words(s) =~= x + text::words(b));
            } else {
                assert(few.last() == b[b.len() - 2]);
                lemma_some_word(few);
                assert((x + y).last() == y.last());
                assert((x + y).drop_last() =~= x + y.drop_last());
                assert(text::words(s) =~= x + text::words(b));
            }
        }
        if unbroken(b) {
            assert(!text::is_space(b[b.len() - 1]));
            if b.len() == 1 {
                assert(few =~= seq![]);
                assert(seq![b.last()] =~= b);
                assert(text::words(b) =~= seq![b]);
            } else {
                assert forall|i: int| 0 <= i < few.len() implies !text::is_space(#[trigger] few[i]) by {
                    assert(few[i] == b[i]);
                }
                assert(!text::is_space(b[b.len() - 2]));
                assert(y == seq![few]);
                assert(few.push(b.last()) =~= b);
                assert(text::words(b) =~= seq![b]);
            }
        }
    }
}

// ── Parts of a text ─────────────────────────────────────────────────────────

/// A text holds another exactly if it is that other with something before and
/// after, begins with it if nothing is before, and ends in it if nothing is after.
pub proof fn law_a_text_holds_its_parts(s: Text, part: Text)
    ensures
        text::contains(s, part) <==> exists|a: Text, b: Text| s == #[trigger] (a + part + b),
        text::starts_with(s, part) <==> exists|b: Text| s == #[trigger] (part + b),
        text::ends_with(s, part) <==> exists|a: Text| s == #[trigger] (a + part),
{
    let n = part.len() as int;
    if text::contains(s, part) {
        let i = choose|i: int| text::occurs_at(s, part, i);
        assert(s =~= s.take(i) + part + s.skip(i + n));
    }
    if exists|a: Text, b: Text| s == #[trigger] (a + part + b) {
        let (a, b) = choose|a: Text, b: Text| s == #[trigger] (a + part + b);
        let i = a.len() as int;
        assert(s.subrange(i, i + n) =~= part);
        assert(text::occurs_at(s, part, i));
    }
    if text::starts_with(s, part) {
        assert(s.subrange(0, n) == part);
        assert(s =~= part + s.skip(n));
    }
    if exists|b: Text| s == #[trigger] (part + b) {
        let b = choose|b: Text| s == #[trigger] (part + b);
        assert(s.subrange(0, n) =~= part);
    }
    if text::ends_with(s, part) {
        let i = s.len() - n;
        assert(s.subrange(i, i + n) == part);
        assert(s =~= s.take(i) + part);
    }
    if exists|a: Text| s == #[trigger] (a + part) {
        let a = choose|a: Text| s == #[trigger] (a + part);
        let i = s.len() - n;
        assert(s.subrange(i, i + n) =~= part);
    }
}

/// Joining puts the separator between two lists of pieces and leaves every piece
/// as it is.
pub proof fn law_joining_keeps_every_piece(a: Seq<Text>, b: Seq<Text>, one: Text, sep: Text)
    requires
        a.len() > 0,
        b.len() > 0,
    ensures
        text::join(a + b, sep) == text::join(a, sep) + sep + text::join(b, sep),
        text::join(seq![one], sep) == one,
        text::join(seq![], sep) == Seq::<char>::empty(),
    decreases b.len(),
{
    let all = a + b;
    assert(all.drop_last() =~= a + b.drop_last());
    assert(all.last() == b.last());
    if b.len() == 1 {
        assert(a + b.drop_last() =~= a);
        assert(text::join(b, sep) == b[0]);
    } else {
        law_joining_keeps_every_piece(a, b.drop_last(), one, sep);
        assert(text::join(all, sep) =~= text::join(a, sep) + sep + text::join(b, sep));
    }
}

/// A text is the join of the pieces between its separators, and no piece holds
/// one.
pub proof fn law_splitting_is_undone_by_joining(s: Text, sep: Text)
    requires
        sep.len() > 0,
    ensures
        text::join(text::split(s, sep), sep) == s,
        forall|k: int|
            0 <= k < text::split(s, sep).len() ==> !text::contains(#[trigger] text::split(s, sep)[k], sep),
{
    text::lemma_join_split(s, sep);
    text::lemma_split_pieces(s, sep);
}

/// A text without carriage returns is its lines with line breaks in between, and
/// one more behind the last where the text ends in one.
pub proof fn law_a_text_is_its_lines(s: Text)
    requires
        !s.contains('\r'),
        s.len() > 0,
    ensures
        s.last() == '\n' ==> text::join(text::lines(s), "\n"@) + "\n"@ == s,
        s.last() != '\n' ==> text::join(text::lines(s), "\n"@) == s,
        forall|i: int|
            0 <= i < text::lines(s).len() ==> !text::contains(#[trigger] text::lines(s)[i], "\n"@),
{
    let nl = "\n"@;
    reveal_strlit("\n");
    assert(nl =~= seq!['\n']);
    let pieces = text::split(s, nl);
    let lines = text::lines(s);
    text::lemma_join_split(s, nl);
    text::lemma_split_pieces(s, nl);
    let n = pieces.len() as int;
    assert forall|i: int| 0 <= i < n implies text::without_cr(#[trigger] pieces[i]) == pieces[i] by {
        if pieces[i].len() > 0 && pieces[i].last() == '\r' {
            lemma_piece_within(pieces, nl, i);
            let k = choose|k: int| text::occurs_at(s, pieces[i], k);
            assert(s.subrange(k, k + pieces[i].len()) == pieces[i]);
            let m = k + pieces[i].len() - 1;
            assert(s[m] == pieces[i][pieces[i].len() - 1]);
            assert(s.contains('\r'));
        }
    }
    if pieces.last().len() == 0 {
        assert(lines =~= pieces.drop_last());
        if n == 1 {
            assert(text::join(pieces, nl) == pieces[0]);
            assert(false);
        }
        assert(pieces.last() =~= seq![]);
        assert(text::join(pieces, nl) == text::join(pieces.drop_last(), nl) + nl + pieces.last());
        assert(s =~= text::join(lines, nl) + nl);
        assert(s.last() == '\n');
    } else {
        assert(lines =~= pieces);
        let last = pieces.last();
        if n > 1 {
            assert(s == text::join(pieces.drop_last(), nl) + nl + last);
        }
        assert(s.last() == last.last());
        if last.last() == '\n' {
            let k = last.len() - 1;
            assert(last.subrange(k, k + 1) =~= nl);
            assert(text::occurs_at(last, nl, k));
            assert(text::contains(pieces[n - 1], nl));
        }
    }
}

proof fn lemma_piece_within(pieces: Seq<Text>, sep: Text, i: int)
    requires
        0 <= i < pieces.len(),
    ensures
        text::contains(text::join(pieces, sep), pieces[i]),
    decreases pieces.len(),
{
    let all = text::join(pieces, sep);
    if pieces.len() == 1 {
        assert(all.subrange(0, all.len() as int) =~= all);
        assert(text::occurs_at(all, pieces[i], 0));
    } else if i == pieces.len() - 1 {
        let k = all.len() - pieces[i].len();
        assert(all.subrange(k, k + pieces[i].len()) =~= pieces[i]);
        assert(text::occurs_at(all, pieces[i], k));
    } else {
        let few = pieces.drop_last();
        assert(few[i] == pieces[i]);
        lemma_piece_within(few, sep, i);
        let before = text::join(few, sep);
        let k = choose|k: int| text::occurs_at(before, pieces[i], k);
        assert(before.subrange(k, k + pieces[i].len()) == pieces[i]);
        assert(all.subrange(k, k + pieces[i].len()) =~= before.subrange(k, k + pieces[i].len()));
        assert(text::occurs_at(all, pieces[i], k));
    }
}

/// A carriage return in front of a line break belongs to the break: a line loses
/// exactly the one it ends in. What stands behind the last break is kept as it is,
/// and is no line if it is empty.
pub proof fn law_a_line_loses_its_carriage_return(s: Text, i: int)
    ensures
        ({
            let pieces = text::split(s, "\n"@);
            let lines = text::lines(s);
            let last = pieces[pieces.len() - 1];
            &&& lines.len() == (if last.len() == 0 {
                pieces.len() - 1
            } else {
                pieces.len() as int
            })
            &&& last.len() > 0 ==> lines[lines.len() - 1] == last
            &&& 0 <= i < pieces.len() - 1 ==> if pieces[i].len() > 0 && pieces[i].last() == '\r' {
                lines[i] == pieces[i].take(pieces[i].len() - 1)
            } else {
                lines[i] == pieces[i]
            }
        }),
{
    reveal_strlit("\n");
    text::lemma_join_split(s, "\n"@);
}

// ── Numbers ─────────────────────────────────────────────────────────────────

/// A number is written in digits that stand for it, without a zero in front.
pub proof fn law_a_number_is_written_in_its_digits(n: nat)
    ensures
        text::decimal(n).len() > 0,
        forall|i: int|
            0 <= i < text::decimal(n).len() ==> '0' <= (#[trigger] text::decimal(n)[i]) <= '9',
        form::value_of(text::decimal(n)) == n,
        n >= 10 ==> text::decimal(n)[0] != '0',
    decreases n,
{
    form::lemma_decimal_is_read(n);
    let s = text::decimal(n);
    assert forall|i: int| 0 <= i < s.len() implies '0' <= (#[trigger] s[i]) <= '9' by {
        assert(form::is_digit(s[i]));
    }
    if n >= 10 {
        law_a_number_is_written_in_its_digits(n / 10);
        assert(s[0] == text::decimal(n / 10)[0]);
        if n / 10 < 10 {
            assert(text::decimal(n / 10) =~= seq![text::digit(n / 10)]);
            assert(text::digit(n / 10) as nat == n / 10 + 48);
        }
    }
}

// ── Markup ──────────────────────────────────────────────────────────────────

/// Escaping goes character by character: a letter stays, and what could be read as
/// markup becomes its entity.
pub proof fn law_escaping_keeps_the_text(a: Text, b: Text, c: char)
    ensures
        html::escaped(a + b) == html::escaped(a) + html::escaped(b),
        html::escaped(seq!['<']) == "&lt;"@,
        html::escaped(seq!['>']) == "&gt;"@,
        html::escaped(seq!['&']) == "&amp;"@,
        html::escaped(seq!['"']) == "&quot;"@,
        html::escaped(seq!['\'']) == "&apos;"@,
        ('a' <= c <= 'z' || 'A' <= c <= 'Z' || '0' <= c <= '9') ==> html::escaped(seq![c]) == seq![c],
        html::escaped(seq![]) == Seq::<char>::empty(),
        html::failure_page(a) == "<i>Could not load message: "@ + html::escaped(a) + "</i>"@,
    decreases b.len(),
{
    lemma_escaped_one('<');
    lemma_escaped_one('>');
    lemma_escaped_one('&');
    lemma_escaped_one('"');
    lemma_escaped_one('\'');
    lemma_escaped_one(c);
    assert(html::escaped(seq![]) =~= Seq::<char>::empty());
    if b.len() == 0 {
        assert(a + b =~= a);
        assert(html::escaped(a) + html::escaped(b) =~= html::escaped(a));
    } else {
        law_escaping_keeps_the_text(a, b.drop_last(), c);
        assert((a + b).drop_last() =~= a + b.drop_last());
        assert((a + b).last() == b.last());
        assert(html::escaped(a + b) =~= html::escaped(a) + html::escaped(b));
    }
}

proof fn lemma_escaped_one(c: char)
    ensures
        html::escaped(seq![c]) == html::escaped_char(c),
{
    let one = seq![c];
    assert(one.drop_last() =~= seq![]);
    assert(html::escaped(one.drop_last()) =~= seq![]);
    assert(one.last() == c);
    assert(html::escaped(one) =~= html::escaped_char(c));
}

// ── Search terms ────────────────────────────────────────────────────────────

/// Quoting doubles each quotation mark and keeps every other character.
pub proof fn law_quoting_keeps_the_text(a: Text, b: Text, c: char)
    ensures
        search_query::doubled_quotes(a + b) == search_query::doubled_quotes(a)
            + search_query::doubled_quotes(b),
        search_query::doubled_quotes(seq!['"']) == seq!['"', '"'],
        c != '"' ==> search_query::doubled_quotes(seq![c]) == seq![c],
        search_query::quoted(a) == seq!['"'] + search_query::doubled_quotes(a) + seq!['"'],
    decreases b.len(),
{
    let none = Seq::<char>::empty();
    assert(search_query::doubled_quotes(none) =~= none);
    let one = seq![c];
    assert(one.drop_last() =~= none);
    assert(one.last() == c);
    let mark = seq!['"'];
    assert(mark.drop_last() =~= none);
    assert(mark.last() == '"');
    assert(search_query::doubled_quotes(mark) =~= seq!['"', '"']);
    if c != '"' {
        assert(search_query::doubled_quotes(one) =~= seq![c]);
    }
    if b.len() == 0 {
        assert(a + b =~= a);
        assert(b =~= none);
        assert(search_query::doubled_quotes(a) + search_query::doubled_quotes(b)
            =~= search_query::doubled_quotes(a));
    } else {
        law_quoting_keeps_the_text(a, b.drop_last(), c);
        assert((a + b).drop_last() =~= a + b.drop_last());
        assert((a + b).last() == b.last());
        assert(search_query::doubled_quotes(a + b) =~= search_query::doubled_quotes(a)
            + search_query::doubled_quotes(b));
    }
}

proof fn lemma_begins(word: Text, prefix: Text)
    ensures
        text::starts_with(prefix + word, prefix),
        (prefix + word).skip(prefix.len() as int) == word,
{
    assert((prefix + word).subrange(0, prefix.len() as int) =~= prefix);
    assert((prefix + word).skip(prefix.len() as int) =~= word);
}

proof fn lemma_differs(word: Text, prefix: Text)
    requires
        word.len() > 0,
        prefix.len() > 0,
        word[0] != prefix[0],
    ensures
        !text::starts_with(word, prefix),
{
    if text::starts_with(word, prefix) {
        assert(word.subrange(0, prefix.len() as int)[0] == word[0]);
    }
}

/// A word behind the name of a column is looked for in that column: the sender,
/// the recipient, the subject or the text. A column without a word asks nothing,
/// and neither do the filters that the index does not hold.
pub proof fn law_a_column_is_searched_by_its_name(word: Text)
    requires
        word.len() > 0,
    ensures
        search_query::term("from:"@ + word) == Some("from_addr:"@ + search_query::quoted(word)),
        search_query::term("to:"@ + word) == Some("to_addr:"@ + search_query::quoted(word)),
        search_query::term("subject:"@ + word) == Some("subject:"@ + search_query::quoted(word)),
        search_query::term("body:"@ + word) == Some("body:"@ + search_query::quoted(word)),
        search_query::term("from:"@) is None,
        search_query::term("to:"@) is None,
        search_query::term("subject:"@) is None,
        search_query::term("body:"@) is None,
        search_query::term("since:"@ + word) is None,
        search_query::term("before:"@ + word) is None,
        search_query::term("is:unread"@) is None,
        search_query::term("has:attachment"@) is None,
{
    lemma_columns(word);
    let none = Seq::<char>::empty();
    lemma_columns(none);
    assert("from:"@ + none =~= "from:"@);
    assert("to:"@ + none =~= "to:"@);
    assert("subject:"@ + none =~= "subject:"@);
    assert("body:"@ + none =~= "body:"@);
    lemma_begins(word, "since:"@);
    lemma_begins(word, "before:"@);
}

proof fn lemma_columns(word: Text)
    ensures
        search_query::term("from:"@ + word) == search_query::in_column("from_addr:"@, word),
        search_query::term("to:"@ + word) == search_query::in_column("to_addr:"@, word),
        search_query::term("subject:"@ + word) == search_query::in_column("subject:"@, word),
        search_query::term("body:"@ + word) == search_query::in_column("body:"@, word),
{
    reveal_strlit("from:");
    reveal_strlit("to:");
    reveal_strlit("subject:");
    reveal_strlit("body:");
    reveal_strlit("since:");
    reveal_strlit("before:");
    reveal_strlit("is:unread");
    reveal_strlit("has:attachment");
    let from = "from:"@ + word;
    let to = "to:"@ + word;
    let subject = "subject:"@ + word;
    let body = "body:"@ + word;
    assert(from[0] == 'f' && to[0] == 't' && subject[0] == 's' && body[0] == 'b');
    assert(subject[1] == 'u' && body[1] == 'o');
    assert("is:unread"@[0] == 'i' && "has:attachment"@[0] == 'h');
    lemma_begins(word, "from:"@);
    lemma_begins(word, "to:"@);
    lemma_begins(word, "subject:"@);
    lemma_begins(word, "body:"@);
    lemma_differs(from, "since:"@);
    lemma_differs(from, "before:"@);
    lemma_differs(to, "since:"@);
    lemma_differs(to, "before:"@);
    lemma_differs(to, "from:"@);
    lemma_differs(subject, "before:"@);
    lemma_differs(subject, "from:"@);
    lemma_differs(subject, "to:"@);
    lemma_differs(body, "since:"@);
    lemma_differs(body, "from:"@);
    lemma_differs(body, "to:"@);
    lemma_differs(body, "subject:"@);
    if text::starts_with(subject, "since:"@) {
        assert(subject.subrange(0, 6)[1] == subject[1]);
    }
    if text::starts_with(body, "before:"@) {
        assert(body.subrange(0, 7)[1] == body[1]);
    }
    assert(from.len() > 0 && from != "is:unread"@ && from != "has:attachment"@);
    assert(to != "is:unread"@ && to != "has:attachment"@);
    assert(subject != "is:unread"@ && subject != "has:attachment"@);
    assert(body != "is:unread"@ && body != "has:attachment"@);
}

/// Any other word is looked for everywhere, as it was typed.
pub proof fn law_a_plain_word_is_searched_everywhere(word: Text)
    requires
        word.len() > 0,
        !text::starts_with(word, "from:"@),
        !text::starts_with(word, "to:"@),
        !text::starts_with(word, "subject:"@),
        !text::starts_with(word, "body:"@),
        !text::starts_with(word, "since:"@),
        !text::starts_with(word, "before:"@),
        word != "is:unread"@,
        word != "has:attachment"@,
    ensures
        search_query::term(word) == Some(search_query::quoted(word)),
{
    let none = Seq::<char>::empty();
    assert(none + search_query::quoted(word) =~= search_query::quoted(word));
}

/// What is typed is looked for word by word, in order, all at once; with no word
/// that asks for anything nothing is searched.
pub proof fn law_every_word_is_searched(a: Text, c: char, b: Text, one: Text)
    requires
        text::is_space(c),
    ensures
        search_query::terms(text::words(a + seq![c] + b)) == search_query::terms(text::words(a))
            + search_query::terms(text::words(b)),
        unbroken(one) && one.len() > 0 ==> search_query::terms(text::words(one)) == (
        match search_query::term(one) {
            Some(t) => seq![t],
            None => seq![],
        }),
        search_query::query_of(a) == (if search_query::terms(text::words(a)).len() == 0 {
            None
        } else {
            Some(text::join(search_query::terms(text::words(a)), " "@))
        }),
{
    law_white_space_parts_words(a, c, b);
    lemma_terms(text::words(a), text::words(b));
    if unbroken(one) && one.len() > 0 {
        law_white_space_parts_words(a, c, one);
        let w = seq![one];
        assert(w.drop_last() =~= Seq::<Text>::empty());
        assert(search_query::terms(w.drop_last()) =~= Seq::<Text>::empty());
        assert(w.last() == one);
        match search_query::term(one) {
            Some(t) => {
                assert(search_query::terms(w) =~= seq![t]);
            },
            None => {},
        }
    }
}

proof fn lemma_terms(a: Seq<Text>, b: Seq<Text>)
    ensures
        search_query::terms(a + b) == search_query::terms(a) + search_query::terms(b),
    decreases b.len(),
{
    if b.len() == 0 {
        assert(a + b =~= a);
        assert(search_query::terms(a) + search_query::terms(b) =~= search_query::terms(a));
    } else {
        lemma_terms(a, b.drop_last());
        assert((a + b).drop_last() =~= a + b.drop_last());
        assert((a + b).last() == b.last());
        assert(search_query::terms(a + b) =~= search_query::terms(a) + search_query::terms(b));
    }
}

// ── File names and sizes ────────────────────────────────────────────────────

/// Whether a text holds no path separator.
pub open spec fn one_component(s: Text) -> bool {
    forall|i: int| 0 <= i < s.len() ==> #[trigger] s[i] != '/' && s[i] != '\\'
}

/// An attachment is written under what stands behind the last separator of its
/// name, and as `attachment` where that is no name.
pub proof fn law_an_attachment_keeps_its_own_name(directory: Text, name: Text)
    requires
        one_component(name),
        directory.len() == 0 || directory.last() == '/' || directory.last() == '\\',
    ensures
        name.len() > 0 && name != "."@ && name != ".."@ ==> files::safe_name(directory + name) == name,
        name.len() == 0 || name == "."@ || name == ".."@ ==> files::safe_name(directory + name)
            == "attachment"@,
{
    lemma_base(directory, name);
}

proof fn lemma_base(directory: Text, name: Text)
    requires
        one_component(name),
        directory.len() == 0 || directory.last() == '/' || directory.last() == '\\',
    ensures
        files::base_name(directory + name) == name,
    decreases name.len(),
{
    let s = directory + name;
    if name.len() == 0 {
        assert(s =~= directory);
        assert(name =~= seq![]);
    } else {
        let few = name.drop_last();
        assert forall|i: int| 0 <= i < few.len() implies #[trigger] few[i] != '/' && few[i] != '\\' by {
            assert(few[i] == name[i]);
        }
        lemma_base(directory, few);
        assert(s.drop_last() =~= directory + few);
        assert(s.last() == name[name.len() - 1]);
        assert(few.push(name.last()) =~= name);
    }
}

/// A message is exported under its subject, with a low line in place of each
/// character that is not plain, without what may not stand at either end, and with
/// no more than its first sixty characters. Without a subject its UID names it.
pub proof fn law_an_export_is_named_by_its_subject(subject: Text, uid: u32)
    ensures
        ({
            let plain = files::plain_name(subject);
            let stem = files::export_stem(subject);
            &&& plain.len() == subject.len()
            &&& forall|i: int|
                0 <= i < subject.len() ==> #[trigger] plain[i] == (if files::alphanumeric(subject[i])
                    || subject[i] == ' ' || subject[i] == '-' || subject[i] == '_' || subject[i]
                    == '.' {
                    subject[i]
                } else {
                    '_'
                })
            &&& exists|from: int, to: int|
                #![trigger plain.subrange(from, to)]
                0 <= from <= to <= plain.len() && stem == plain.subrange(from, to).take(
                    if to - from <= 60 {
                        to - from
                    } else {
                        60
                    },
                ) && (forall|i: int|
                    0 <= i < plain.len() && !(from <= i < to) ==> (#[trigger] plain[i] == '.'
                        || plain[i] == '_' || text::is_space(plain[i]))) && (from < to ==> !(plain[from]
                    == '.' || plain[from] == '_' || text::is_space(plain[from])) && !(plain[to - 1]
                    == '.' || plain[to - 1] == '_' || text::is_space(plain[to - 1])))
            &&& stem.len() == 0 ==> files::export_name(subject, uid) == "message-"@ + text::decimal(
                uid as nat,
            ) + ".eml"@
            &&& stem.len() > 0 ==> files::export_name(subject, uid) == text::trim_end(stem) + ".eml"@
        }),
{
    let plain = files::plain_name(subject);
    let stem = files::export_stem(subject);
    let from = lemma_head(plain);
    let body = files::without_head(plain);
    let n = lemma_tail_off(body);
    let to = from + n;
    let middle = plain.subrange(from, to);
    assert(files::without_tail(body) =~= middle);
    assert(stem =~= middle.take(if to - from <= 60 {
        to - from
    } else {
        60
    }));
    assert forall|i: int| 0 <= i < plain.len() && !(from <= i < to) implies (#[trigger] plain[i] == '.'
        || plain[i] == '_' || text::is_space(plain[i])) by {
        if i < from {
            assert(files::is_edge(plain[i]));
        } else {
            assert(body[i - from] == plain[i]);
            assert(files::is_edge(body[i - from]));
        }
    }
    if from < to {
        assert(body[0] == plain[from]);
        assert(!files::is_edge(plain[from]));
        assert(body[n - 1] == plain[to - 1]);
        assert(!files::is_edge(plain[to - 1]));
    }
}

proof fn lemma_head(s: Text) -> (k: int)
    ensures
        0 <= k <= s.len(),
        files::without_head(s) == s.skip(k),
        forall|i: int| 0 <= i < k ==> files::is_edge(#[trigger] s[i]),
        k < s.len() ==> !files::is_edge(s[k]),
    decreases s.len(),
{
    if s.len() > 0 && files::is_edge(s.first()) {
        let rest = s.drop_first();
        let k = lemma_head(rest);
        assert(rest.skip(k) =~= s.skip(k + 1));
        assert forall|i: int| 0 <= i < k + 1 implies files::is_edge(#[trigger] s[i]) by {
            if i > 0 {
                assert(rest[i - 1] == s[i]);
            }
        }
        k + 1
    } else {
        assert(s.skip(0) =~= s);
        0
    }
}

proof fn lemma_tail_off(s: Text) -> (k: int)
    ensures
        0 <= k <= s.len(),
        files::without_tail(s) == s.take(k),
        forall|i: int| k <= i < s.len() ==> files::is_edge(#[trigger] s[i]),
        k > 0 ==> !files::is_edge(s[k - 1]),
    decreases s.len(),
{
    if s.len() > 0 && files::is_edge(s.last()) {
        let rest = s.drop_last();
        let k = lemma_tail_off(rest);
        assert(rest.take(k) =~= s.take(k));
        assert forall|i: int| k <= i < s.len() implies files::is_edge(#[trigger] s[i]) by {
            if i < rest.len() {
                assert(rest[i] == s[i]);
            }
        }
        k
    } else {
        assert(s.take(s.len() as int) =~= s);
        s.len() as int
    }
}

/// Sizes from a kilobyte on are shown to the nearest tenth of a kilobyte, and from
/// a megabyte on to the nearest tenth of a megabyte; of two that are as near, the
/// even one.
pub proof fn law_a_size_is_shown_to_the_nearest_tenth(bytes: nat)
    requires
        1024 <= bytes < 0x20_0000_0000_0000,
    ensures
        exists|tenths: nat|
            {
                let unit: nat = if bytes < 1048576 {
                    1024
                } else {
                    1048576
                };
                &&& files::size_text(bytes) == #[trigger] (text::decimal(tenths / 10) + "."@
                    + text::decimal(tenths % 10)) + (if bytes < 1048576 {
                    " KB"@
                } else {
                    " MB"@
                })
                &&& 2 * (10 * bytes - tenths * unit) <= unit
                &&& 2 * (tenths * unit - 10 * bytes) <= unit
                &&& 2 * (10 * bytes - tenths * unit) == unit || 2 * (tenths * unit - 10 * bytes) == unit
                    ==> tenths % 2 == 0
            },
{
    assert(files::spacing(bytes) == 1);
    assert(files::rounded(bytes, 1) == bytes);
    if bytes < 1048576 {
        let t = files::tenths(bytes, 1024);
        let q: int = 10 * bytes as int / 1024;
        assert(t == q || t == q + 1);
        assert(files::size_text(bytes) == (text::decimal(t / 10) + "."@ + text::decimal(t % 10))
            + " KB"@);
    } else {
        let t = files::tenths(bytes, 1048576);
        let q: int = 10 * bytes as int / 1048576;
        assert(t == q || t == q + 1);
        assert(files::size_text(bytes) == (text::decimal(t / 10) + "."@ + text::decimal(t % 10))
            + " MB"@);
    }
}

} // verus!
