//! Text as sequences of characters: case folding, splitting, joining, trimming
//! and decimal numerals.

use vstd::prelude::*;
use vstd::string::*;

verus! {

broadcast use vstd::string::group_string_axioms;

/// The text model: what a `String` or a `&str` holds.
pub type Text = Seq<char>;

/// `String::push` appends the character to the end of the string.
pub assume_specification[ String::push ](s: &mut String, c: char)
    ensures
        final(s)@ == old(s)@.push(c),
;

// ── Characters ──────────────────────────────────────────────────────────────

/// The ASCII lower-case form of a character; every other character is itself.
pub open spec fn lower_char(c: char) -> char {
    if 'A' <= c && c <= 'Z' {
        (c as u8 + 32) as char
    } else {
        c
    }
}

/// The text with every ASCII upper-case letter replaced by its lower-case form.
pub open spec fn lower(s: Text) -> Text {
    Seq::new(s.len(), |i: int| lower_char(s[i]))
}

/// ASCII lower-cases one character.
pub fn to_lower_char(c: char) -> (r: char)
    ensures
        r == lower_char(c),
{
    if 'A' <= c && c <= 'Z' {
        (c as u8 + 32) as char
    } else {
        c
    }
}

// ── Conversion to and from character vectors ────────────────────────────────

/// The characters of a string, in order.
pub fn chars_of(s: &str) -> (r: Vec<char>)
    ensures
        r@ == s@,
{
    let mut r: Vec<char> = Vec::new();
    for c in it: s.chars()
        invariant
            r@ == s@.take(it.index()),
            it.seq() == s@,
    {
        r.push(c);
        assert(s@.take(it.index() + 1) =~= s@.take(it.index()).push(s@[it.index()]));
    }
    assert(s@.take(s@.len() as int) =~= s@);
    r
}

/// The string made of the characters from `from` up to `to`.
pub fn string_of_range(v: &Vec<char>, from: usize, to: usize) -> (r: String)
    requires
        from <= to <= v@.len(),
    ensures
        r@ == v@.subrange(from as int, to as int),
{
    let mut r = String::new();
    let mut i: usize = from;
    while i < to
        invariant
            from <= i <= to <= v@.len(),
            r@ == v@.subrange(from as int, i as int),
        decreases to - i,
    {
        r.push(v[i]);
        i += 1;
        assert(v@.subrange(from as int, i as int) =~= v@.subrange(from as int, i - 1).push(v@[i - 1]));
    }
    r
}

// ── Comparison ──────────────────────────────────────────────────────────────

/// Whether two byte strings are the same.
pub fn same_bytes(a: &Vec<u8>, b: &Vec<u8>) -> (r: bool)
    ensures
        r == (a@ == b@),
        r == (a.deep_view() == b.deep_view()),
{
    if a.len() != b.len() {
        assert(a.deep_view().len() != b.deep_view().len());
        return false;
    }
    let mut i: usize = 0;
    while i < a.len()
        invariant
            a@.len() == b@.len(),
            i <= a@.len(),
            forall|j: int| 0 <= j < i ==> a@[j] == b@[j],
        decreases a@.len() - i,
    {
        if a[i] != b[i] {
            assert(a.deep_view()[i as int] != b.deep_view()[i as int]);
            return false;
        }
        i += 1;
    }
    assert(a@ =~= b@);
    assert(a.deep_view() =~= b.deep_view());
    true
}

/// Whether two strings hold the same text.
pub fn same(a: &str, b: &str) -> (r: bool)
    ensures
        r == (a@ == b@),
{
    a.to_owned() == b.to_owned()
}

/// ASCII lower-cases a string.
pub fn to_lower(s: &str) -> (r: String)
    ensures
        r@ == lower(s@),
{
    let mut r = String::new();
    for c in it: s.chars()
        invariant
            r@ == lower(s@.take(it.index())),
            it.seq() == s@,
    {
        r.push(to_lower_char(c));
        assert(lower(s@.take(it.index() + 1)) =~= lower(s@.take(it.index())).push(lower_char(c)));
    }
    assert(s@.take(s@.len() as int) =~= s@);
    r
}

/// Whether two strings are equal once ASCII letters are lower-cased.
pub fn same_ignoring_case(a: &str, b: &str) -> (r: bool)
    ensures
        r == (lower(a@) == lower(b@)),
{
    to_lower(a) == to_lower(b)
}

// ── Whitespace ──────────────────────────────────────────────────────────────

/// The characters with Unicode's `White_Space` property.
pub open spec fn is_space(c: char) -> bool {
    ||| '\u{9}' <= c && c <= '\u{d}'
    ||| c == '\u{20}'
    ||| c == '\u{85}'
    ||| c == '\u{a0}'
    ||| c == '\u{1680}'
    ||| '\u{2000}' <= c && c <= '\u{200a}'
    ||| c == '\u{2028}'
    ||| c == '\u{2029}'
    ||| c == '\u{202f}'
    ||| c == '\u{205f}'
    ||| c == '\u{3000}'
}

/// `char::is_whitespace` tells whether a character has the `White_Space`
/// property of the Unicode character database; [`is_space`] lists them.
pub assume_specification[ char::is_whitespace ](c: char) -> (r: bool)
    ensures
        r == is_space(c),
;

/// The text without its leading whitespace.
pub open spec fn trim_start(s: Text) -> Text
    decreases s.len(),
{
    if s.len() > 0 && is_space(s.first()) {
        trim_start(s.drop_first())
    } else {
        s
    }
}

/// The text without its trailing whitespace.
pub open spec fn trim_end(s: Text) -> Text
    decreases s.len(),
{
    if s.len() > 0 && is_space(s.last()) {
        trim_end(s.drop_last())
    } else {
        s
    }
}

/// The text without its leading and trailing whitespace.
pub open spec fn trim(s: Text) -> Text {
    trim_end(trim_start(s))
}

/// How many leading characters of `v` are whitespace.
fn leading_spaces(v: &Vec<char>) -> (n: usize)
    ensures
        n <= v@.len(),
        trim_start(v@) == v@.skip(n as int),
{
    let mut n: usize = 0;
    assert(v@.skip(0) =~= v@);
    while n < v.len() && v[n].is_whitespace()
        invariant
            n <= v@.len(),
            trim_start(v@) == trim_start(v@.skip(n as int)),
        ensures
            n <= v@.len(),
            trim_start(v@) == trim_start(v@.skip(n as int)),
            n < v@.len() ==> !is_space(v@[n as int]),
        decreases v@.len() - n,
    {
        assert(v@.skip(n as int).drop_first() =~= v@.skip(n + 1));
        n += 1;
    }
    n
}

/// The end of `v` from `from` on once trailing whitespace is left out.
fn end_before_spaces(v: &Vec<char>, from: usize) -> (end: usize)
    requires
        from <= v@.len(),
    ensures
        from <= end <= v@.len(),
        trim_end(v@.skip(from as int)) == v@.subrange(from as int, end as int),
{
    let mut end: usize = v.len();
    assert(v@.skip(from as int) =~= v@.subrange(from as int, end as int));
    while end > from && v[end - 1].is_whitespace()
        invariant
            from <= end <= v@.len(),
            trim_end(v@.skip(from as int)) == trim_end(v@.subrange(from as int, end as int)),
        ensures
            from <= end <= v@.len(),
            trim_end(v@.skip(from as int)) == trim_end(v@.subrange(from as int, end as int)),
            end > from ==> !is_space(v@[end - 1]),
        decreases end,
    {
        assert(v@.subrange(from as int, end as int).drop_last() =~= v@.subrange(from as int, end - 1));
        end -= 1;
    }
    end
}

/// The string without its leading and trailing whitespace.
pub fn trimmed(s: &str) -> (r: String)
    ensures
        r@ == trim(s@),
{
    let v = chars_of(s);
    let from: usize = leading_spaces(&v);
    let end: usize = end_before_spaces(&v, from);
    string_of_range(&v, from, end)
}

/// The string without its leading whitespace.
pub fn trimmed_start(s: &str) -> (r: String)
    ensures
        r@ == trim_start(s@),
{
    let v = chars_of(s);
    let from: usize = leading_spaces(&v);
    assert(v@.skip(from as int) =~= v@.subrange(from as int, v@.len() as int));
    string_of_range(&v, from, v.len())
}

/// The string without its trailing whitespace.
pub fn trimmed_end(s: &str) -> (r: String)
    ensures
        r@ == trim_end(s@),
{
    let v = chars_of(s);
    let end: usize = end_before_spaces(&v, 0);
    assert(v@.skip(0) =~= v@);
    string_of_range(&v, 0, end)
}

/// The maximal runs of non-whitespace characters, in order.
pub open spec fn words(s: Text) -> Seq<Text>
    decreases s.len(),
{
    if s.len() == 0 {
        seq![]
    } else if is_space(s.last()) {
        words(s.drop_last())
    } else if s.len() == 1 || is_space(s[s.len() - 2]) {
        words(s.drop_last()).push(seq![s.last()])
    } else {
        let before = words(s.drop_last());
        before.drop_last().push(before.last().push(s.last()))
    }
}

/// Splits a string into its whitespace-separated words.
pub fn split_words(s: &str) -> (r: Vec<String>)
    ensures
        r.deep_view() == words(s@),
{
    let v = chars_of(s);
    let mut done: Vec<String> = Vec::new();
    let mut word = String::new();
    let mut in_word: bool = false;
    let mut i: usize = 0;
    assert(done.deep_view() =~= Seq::<Text>::empty());
    while i < v.len()
        invariant
            i <= v@.len(),
            v@ == s@,
            in_word == (i > 0 && !is_space(v@[i - 1])),
            in_word ==> words(v@.take(i as int)) == done.deep_view().push(word@),
            !in_word ==> words(v@.take(i as int)) == done.deep_view() && word@.len() == 0,
        decreases v@.len() - i,
    {
        let c = v[i];
        let ghost before = v@.take(i as int);
        let ghost after = v@.take(i + 1);
        assert(after.drop_last() =~= before);
        assert(after.last() == c);
        let ghost held = done.deep_view();
        let ghost held_word = word@;
        if c.is_whitespace() {
            if in_word {
                done.push(word);
                word = String::new();
                in_word = false;
                assert(done.deep_view() =~= held.push(held_word));
            }
        } else {
            assert(i > 0 ==> after[after.len() - 2] == v@[i - 1]);
            word.push(c);
            assert(in_word ==> held.push(held_word).drop_last() =~= held);
            assert(!in_word ==> seq![c] =~= held_word.push(c));
            in_word = true;
        }
        i += 1;
    }
    assert(v@.take(v@.len() as int) =~= v@);
    if in_word {
        let ghost held = done.deep_view();
        let ghost held_word = word@;
        done.push(word);
        assert(done.deep_view() =~= held.push(held_word));
    }
    done
}

// ── Searching, splitting and joining ────────────────────────────────────────

/// Whether `pat` stands in `s` at position `i`.
pub open spec fn occurs_at(s: Text, pat: Text, i: int) -> bool {
    0 <= i && i + pat.len() <= s.len() && s.subrange(i, i + pat.len()) == pat
}

/// Whether `pat` stands anywhere in `s`.
pub open spec fn contains(s: Text, pat: Text) -> bool {
    exists|i: int| occurs_at(s, pat, i)
}

/// Whether `s` begins with `pat`.
pub open spec fn starts_with(s: Text, pat: Text) -> bool {
    occurs_at(s, pat, 0)
}

/// Whether `s` ends with `pat`.
pub open spec fn ends_with(s: Text, pat: Text) -> bool {
    occurs_at(s, pat, s.len() - pat.len())
}

/// The first position from `i` on where `pat` stands in `s`, or -1.
pub open spec fn find_from(s: Text, pat: Text, i: int) -> int
    decreases s.len() + 1 - i,
{
    if i < 0 || i + pat.len() > s.len() {
        -1
    } else if occurs_at(s, pat, i) {
        i
    } else {
        find_from(s, pat, i + 1)
    }
}

/// What [`find_from`] says of the positions it looked at.
pub proof fn lemma_find_from(s: Text, pat: Text, i: int)
    requires
        0 <= i,
    ensures
        find_from(s, pat, i) == -1 || i <= find_from(s, pat, i) <= s.len() - pat.len(),
        find_from(s, pat, i) >= 0 ==> occurs_at(s, pat, find_from(s, pat, i)),
        forall|k: int|
            i <= k && (k < find_from(s, pat, i) || find_from(s, pat, i) == -1)
                ==> !#[trigger] occurs_at(s, pat, k),
    decreases s.len() + 1 - i,
{
    if i + pat.len() > s.len() {
    } else if occurs_at(s, pat, i) {
    } else {
        lemma_find_from(s, pat, i + 1);
    }
}

/// The pieces of `s` between the occurrences of `sep`, taken left to right.
pub open spec fn split(s: Text, sep: Text) -> Seq<Text>
    decreases s.len(),
{
    let i = find_from(s, sep, 0);
    if sep.len() == 0 || i < 0 || i + sep.len() > s.len() {
        seq![s]
    } else {
        seq![s.take(i)] + split(s.skip(i + sep.len()), sep)
    }
}

/// The pieces with `sep` between each two of them.
pub open spec fn join(pieces: Seq<Text>, sep: Text) -> Text
    decreases pieces.len(),
{
    if pieces.len() == 0 {
        seq![]
    } else if pieces.len() == 1 {
        pieces[0]
    } else {
        join(pieces.drop_last(), sep) + sep + pieces.last()
    }
}

/// Whether `pat` stands in `v` at position `i`.
fn matches_at(v: &Vec<char>, pat: &Vec<char>, i: usize) -> (r: bool)
    requires
        i <= v@.len(),
    ensures
        r == occurs_at(v@, pat@, i as int),
{
    if v.len() - i < pat.len() {
        return false;
    }
    let mut k: usize = 0;
    let n: usize = v.len();
    while k < pat.len()
        invariant
            k <= pat@.len(),
            n == v@.len(),
            i + pat@.len() <= n,
            forall|j: int| 0 <= j < k ==> v@[i + j] == pat@[j],
        decreases pat@.len() - k,
    {
        if v[i + k] != pat[k] {
            assert(v@.subrange(i as int, i + pat@.len())[k as int] != pat@[k as int]);
            return false;
        }
        k += 1;
    }
    assert(v@.subrange(i as int, i + pat@.len()) =~= pat@);
    true
}

/// The first position from `from` on where `pat` stands in `v`.
fn position_from(v: &Vec<char>, pat: &Vec<char>, from: usize) -> (r: Option<usize>)
    requires
        from <= v@.len(),
    ensures
        match r {
            Some(i) => find_from(v@, pat@, from as int) == i,
            None => find_from(v@, pat@, from as int) == -1,
        },
{
    let mut i: usize = from;
    while v.len() - i >= pat.len()
        invariant
            from <= i <= v@.len(),
            find_from(v@, pat@, from as int) == find_from(v@, pat@, i as int),
        decreases v@.len() - i,
    {
        if matches_at(v, pat, i) {
            return Some(i);
        }
        if i == v.len() {
            assert(pat@ =~= v@.subrange(i as int, i + pat@.len()));
            return None;
        }
        i += 1;
    }
    None
}

/// Whether `s` holds `pat`.
pub fn has(s: &str, pat: &str) -> (r: bool)
    ensures
        r == contains(s@, pat@),
{
    let v = chars_of(s);
    let p = chars_of(pat);
    proof {
        lemma_find_from(s@, pat@, 0);
    }
    match position_from(&v, &p, 0) {
        Some(_) => true,
        None => {
            assert(forall|i: int| !occurs_at(s@, pat@, i));
            false
        },
    }
}

/// Whether `s` begins with `pat`.
pub fn begins_with(s: &str, pat: &str) -> (r: bool)
    ensures
        r == starts_with(s@, pat@),
{
    let v = chars_of(s);
    let p = chars_of(pat);
    matches_at(&v, &p, 0)
}

/// Whether `s` ends with `pat`.
pub fn finishes_with(s: &str, pat: &str) -> (r: bool)
    ensures
        r == ends_with(s@, pat@),
{
    let v = chars_of(s);
    let p = chars_of(pat);
    if p.len() > v.len() {
        return false;
    }
    matches_at(&v, &p, v.len() - p.len())
}

/// The part of `s` behind the prefix `pat`, where `s` begins with it.
pub fn without_prefix(s: &str, pat: &str) -> (r: Option<String>)
    ensures
        match r {
            Some(rest) => starts_with(s@, pat@) && rest@ == s@.skip(pat@.len() as int),
            None => !starts_with(s@, pat@),
        },
{
    let v = chars_of(s);
    let p = chars_of(pat);
    if matches_at(&v, &p, 0) {
        let rest = string_of_range(&v, p.len(), v.len());
        assert(rest@ =~= s@.skip(pat@.len() as int));
        Some(rest)
    } else {
        None
    }
}

/// Splits a string at every occurrence of a separator.
pub fn split_at(s: &str, sep: &str) -> (r: Vec<String>)
    requires
        sep@.len() > 0,
    ensures
        r.deep_view() == split(s@, sep@),
{
    let v = chars_of(s);
    let p = chars_of(sep);
    let mut pieces: Vec<String> = Vec::new();
    let mut from: usize = 0;
    assert(v@.skip(0) =~= v@);
    assert(pieces.deep_view() =~= Seq::<Text>::empty());
    assert(Seq::<Text>::empty() + split(v@, p@) =~= split(v@, p@));
    let n: usize = v.len();
    loop
        invariant_except_break
            p@.len() > 0,
            n == v@.len(),
            from <= n,
            split(v@, p@) == pieces.deep_view() + split(v@.skip(from as int), p@),
        ensures
            pieces.deep_view() == split(v@, p@),
        decreases v@.len() - from,
    {
        let ghost held = pieces.deep_view();
        proof {
            lemma_find_from_skip(v@, p@, from as int, 0);
            lemma_find_from(v@, p@, from as int);
            lemma_find_from(v@.skip(from as int), p@, 0);
        }
        match position_from(&v, &p, from) {
            Some(i) => {
                pieces.push(string_of_range(&v, from, i));
                proof {
                    let rest = v@.skip(from as int);
                    let piece = v@.subrange(from as int, i as int);
                    assert(pieces.deep_view() =~= held.push(piece));
                    assert(rest.take(i - from) =~= piece);
                    assert(rest.skip(i - from + p@.len()) =~= v@.skip(i + p@.len()));
                    assert(held + (seq![piece] + split(v@.skip(i + p@.len()), p@))
                        =~= held.push(piece) + split(v@.skip(i + p@.len()), p@));
                }
                from = i + p.len();
            },
            None => {
                pieces.push(string_of_range(&v, from, v.len()));
                assert(v@.subrange(from as int, v@.len() as int) =~= v@.skip(from as int));
                assert(pieces.deep_view() =~= held + seq![v@.skip(from as int)]);
                break;
            },
        }
    }
    pieces
}

/// Searching in a suffix is searching in the whole from that point on.
proof fn lemma_find_from_skip(s: Text, pat: Text, from: int, i: int)
    requires
        0 <= from <= s.len(),
        0 <= i,
    ensures
        find_from(s.skip(from), pat, i) == if find_from(s, pat, from + i) < 0 {
            -1
        } else {
            find_from(s, pat, from + i) - from
        },
    decreases s.len() + 1 - i,
{
    let rest = s.skip(from);
    lemma_find_from(s, pat, from + i);
    if i + pat.len() > rest.len() {
    } else {
        assert(rest.subrange(i, i + pat.len()) =~= s.subrange(from + i, from + i + pat.len()));
        if occurs_at(rest, pat, i) {
        } else {
            lemma_find_from_skip(s, pat, from, i + 1);
        }
    }
}

/// Joins strings with a separator between each two.
pub fn join_with(pieces: &Vec<String>, sep: &str) -> (r: String)
    ensures
        r@ == join(pieces.deep_view(), sep@),
{
    let mut r = String::new();
    let mut i: usize = 0;
    let ghost all = pieces.deep_view();
    while i < pieces.len()
        invariant
            i <= pieces@.len(),
            all == pieces.deep_view(),
            r@ == join(all.take(i as int), sep@),
        decreases pieces@.len() - i,
    {
        assert(all.take(i + 1).drop_last() =~= all.take(i as int));
        if i > 0 {
            r.append(sep);
        }
        r.append(pieces[i].as_str());
        assert(i == 0 ==> r@ =~= all[0]);
        i += 1;
    }
    assert(all.take(all.len() as int) =~= all);
    r
}

/// Joining what [`split`] produced with the same separator gives the text back.
pub proof fn lemma_join_split(s: Text, sep: Text)
    requires
        sep.len() > 0,
    ensures
        join(split(s, sep), sep) == s,
        split(s, sep).len() > 0,
    decreases s.len(),
{
    lemma_find_from(s, sep, 0);
    let i = find_from(s, sep, 0);
    if i < 0 {
    } else {
        let rest = s.skip(i + sep.len());
        lemma_join_split(rest, sep);
        lemma_join_prepend(s.take(i), split(rest, sep), sep);
        assert(s =~= s.take(i) + sep + rest);
    }
}

/// Joining with one more piece in front.
proof fn lemma_join_prepend(first: Text, rest: Seq<Text>, sep: Text)
    requires
        rest.len() > 0,
    ensures
        join(seq![first] + rest, sep) == first + sep + join(rest, sep),
    decreases rest.len(),
{
    let all = seq![first] + rest;
    assert(all.drop_last() =~= seq![first] + rest.drop_last());
    assert(all.last() == rest.last());
    if rest.len() == 1 {
        assert(seq![first] + rest.drop_last() =~= seq![first]);
        assert(join(seq![first], sep) == first);
        assert(join(rest, sep) == rest[0]);
    } else {
        lemma_join_prepend(first, rest.drop_last(), sep);
        assert(join(all, sep) =~= first + sep + join(rest, sep));
    }
}

/// No piece that [`split`] produced holds the separator.
pub proof fn lemma_split_pieces(s: Text, sep: Text)
    requires
        sep.len() > 0,
    ensures
        forall|k: int|
            0 <= k < split(s, sep).len() ==> !contains(#[trigger] split(s, sep)[k], sep),
    decreases s.len(),
{
    lemma_find_from(s, sep, 0);
    let i = find_from(s, sep, 0);
    let pieces = split(s, sep);
    if i < 0 {
        assert(!contains(s, sep));
    } else {
        let rest = s.skip(i + sep.len());
        lemma_split_pieces(rest, sep);
        assert(!contains(s.take(i), sep)) by {
            if contains(s.take(i), sep) {
                let k = choose|k: int| occurs_at(s.take(i), sep, k);
                assert(s.take(i).subrange(k, k + sep.len()) =~= s.subrange(k, k + sep.len()));
                assert(occurs_at(s, sep, k));
            }
        }
        assert forall|k: int| 0 <= k < pieces.len() implies !contains(#[trigger] pieces[k], sep) by {
            if k > 0 {
                assert(pieces[k] == split(rest, sep)[k - 1]);
            }
        }
    }
}

// ── Lines ───────────────────────────────────────────────────────────────────

/// A line without the carriage return it ends in, if it ends in one.
pub open spec fn without_cr(line: Text) -> Text {
    if line.len() > 0 && line.last() == '\r' {
        line.drop_last()
    } else {
        line
    }
}

/// The lines among the pieces of a text that was split at its line feeds: what
/// stands before a line feed may end in a carriage return that is left out,
/// and an empty piece behind the last line feed is no line.
pub open spec fn lines_of_pieces(pieces: Seq<Text>) -> Seq<Text> {
    if pieces.last().len() == 0 {
        Seq::new((pieces.len() - 1) as nat, |i: int| without_cr(pieces[i]))
    } else {
        Seq::new(
            pieces.len(),
            |i: int|
                if i < pieces.len() - 1 {
                    without_cr(pieces[i])
                } else {
                    pieces[i]
                },
        )
    }
}

/// The lines of a text.
pub open spec fn lines(s: Text) -> Seq<Text> {
    lines_of_pieces(split(s, "\n"@))
}

/// Splits a string into lines.
pub fn split_lines(s: &str) -> (r: Vec<String>)
    ensures
        r.deep_view() == lines(s@),
{
    proof {
        reveal_strlit("\n");
        lemma_join_split(s@, "\n"@);
    }
    let pieces = split_at(s, "\n");
    let ghost all = pieces.deep_view();
    let n: usize = pieces.len();
    assert(n == all.len());
    let mut r: Vec<String> = Vec::new();
    let mut i: usize = 0;
    while i < n - 1
        invariant
            0 < n == pieces@.len(),
            i <= n - 1,
            all == pieces.deep_view(),
            r.deep_view() == Seq::new(i as nat, |i: int| without_cr(all[i])),
        decreases n - i,
    {
        let ghost held = r.deep_view();
        let v = chars_of(pieces[i].as_str());
        let end: usize = if v.len() > 0 && v[v.len() - 1] == '\r' {
            v.len() - 1
        } else {
            v.len()
        };
        r.push(string_of_range(&v, 0, end));
        assert(r.deep_view() =~= held.push(without_cr(all[i as int]))) by {
            assert(v@.subrange(0, end as int) =~= without_cr(all[i as int]));
        }
        i += 1;
        assert(r.deep_view() =~= Seq::new(i as nat, |i: int| without_cr(all[i])));
    }
    if !pieces[n - 1].as_str().is_empty() {
        let ghost held = r.deep_view();
        r.push(pieces[n - 1].clone());
        assert(r.deep_view() =~= held.push(all[n - 1]));
    }
    assert(r.deep_view() =~= lines(s@));
    r
}

// ── Numerals ────────────────────────────────────────────────────────────────

/// The decimal digit of a number below ten.
pub open spec fn digit(n: nat) -> char {
    (n as u8 + 48) as char
}

/// A natural number in decimal, without leading zeros.
pub open spec fn decimal(n: nat) -> Text
    decreases n,
{
    if n < 10 {
        seq![digit(n)]
    } else {
        decimal(n / 10).push(digit(n % 10))
    }
}

/// Writes a number in decimal.
pub fn to_decimal(n: u64) -> (r: String)
    ensures
        r@ == decimal(n as nat),
    decreases n,
{
    let d: u8 = (n % 10) as u8;
    let c: char = (d + 48) as char;
    let mut r = if n < 10 {
        String::new()
    } else {
        to_decimal(n / 10)
    };
    r.push(c);
    assert(n < 10 ==> r@ =~= seq![c]);
    r
}

} // verus!
