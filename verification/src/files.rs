//! Names and sizes of the files that messages are saved as.

use vstd::prelude::*;
use vstd::string::*;
use crate::text;
use crate::text::Text;

verus! {

broadcast use vstd::string::group_string_axioms;

// ── Attachment names ────────────────────────────────────────────────────────

/// What separates the components of a path on some system.
pub open spec fn is_separator(c: char) -> bool {
    c == '/' || c == '\\'
}

/// What stands behind the last separator.
pub open spec fn base_name(s: Text) -> Text
    decreases s.len(),
{
    if s.len() == 0 || is_separator(s.last()) {
        seq![]
    } else {
        base_name(s.drop_last()).push(s.last())
    }
}

/// The file name an attachment is written under: the last component of the
/// name its sender gave, or a fixed name if that is unusable.
pub open spec fn safe_name(filename: Text) -> Text {
    let name = base_name(filename);
    if name.len() == 0 || name == "."@ || name == ".."@ {
        "attachment"@
    } else {
        name
    }
}

/// The file name an attachment is written under. The name comes from the
/// message, so only its last path component is used, whichever system's
/// separators it was written with.
pub fn safe_attachment_filename(filename: &str) -> (r: String)
    ensures
        r@ == safe_name(filename@),
{
    let v = text::chars_of(filename);
    let mut from: usize = v.len();
    assert(v@.subrange(v@.len() as int, v@.len() as int) =~= Seq::<char>::empty());
    assert(v@.take(v@.len() as int) =~= v@);
    assert(base_name(v@) + Seq::<char>::empty() =~= base_name(v@));
    while from > 0 && v[from - 1] != '/' && v[from - 1] != '\\'
        invariant
            from <= v@.len(),
            base_name(v@) == base_name(v@.take(from as int)) + v@.skip(from as int),
        ensures
            from <= v@.len(),
            base_name(v@) == base_name(v@.take(from as int)) + v@.skip(from as int),
            from == 0 || is_separator(v@[from - 1]),
        decreases from,
    {
        let ghost head = v@.take(from as int);
        assert(head.drop_last() =~= v@.take(from - 1));
        assert(base_name(head) == base_name(head.drop_last()).push(v@[from - 1]));
        assert(base_name(head.drop_last()).push(v@[from - 1]) + v@.skip(from as int) =~= base_name(
            head.drop_last(),
        ) + v@.skip(from - 1));
        from -= 1;
    }
    let name = text::string_of_range(&v, from, v.len());
    assert(name@ =~= v@.skip(from as int));
    assert(base_name(v@) =~= name@);
    if name.as_str().is_empty() || text::same(name.as_str(), ".") || text::same(name.as_str(), "..") {
        "attachment".to_owned()
    } else {
        name
    }
}

/// The last component of a path holds no separator.
proof fn lemma_base_name(s: Text)
    ensures
        forall|i: int| 0 <= i < base_name(s).len() ==> !is_separator(#[trigger] base_name(s)[i]),
    decreases s.len(),
{
    if s.len() > 0 && !is_separator(s.last()) {
        lemma_base_name(s.drop_last());
        assert forall|i: int| 0 <= i < base_name(s).len() implies !is_separator(
            #[trigger] base_name(s)[i],
        ) by {
            if i < base_name(s.drop_last()).len() {
                assert(base_name(s)[i] == base_name(s.drop_last())[i]);
            }
        }
    }
}

/// Whatever name a message gives an attachment, it is written under a name
/// that is a single path component: it is not empty, holds no separator and is
/// neither `.` nor `..`.
pub proof fn law_attachment_stays_in_its_directory(filename: Text)
    ensures
        safe_name(filename).len() > 0,
        safe_name(filename) != "."@,
        safe_name(filename) != ".."@,
        forall|i: int|
            0 <= i < safe_name(filename).len() ==> !is_separator(#[trigger] safe_name(filename)[i]),
{
    reveal_strlit("attachment");
    reveal_strlit(".");
    reveal_strlit("..");
    lemma_base_name(filename);
    assert("attachment"@[0] == 'a');
    assert("."@[0] == '.');
    assert(".."@[0] == '.');
}

// ── Export names ────────────────────────────────────────────────────────────

/// Whether `char::is_alphanumeric` holds of a character.
pub uninterp spec fn alphanumeric(c: char) -> bool;

/// `char::is_alphanumeric` tells whether a character is alphabetic or numeric
/// in Unicode's tables, a property that depends on the character alone. Of the
/// ASCII characters these are the letters and the digits.
pub assume_specification[ char::is_alphanumeric ](c: char) -> (r: bool)
    ensures
        r == alphanumeric(c),
        (c as u32) < 128 ==> r == ('0' <= c && c <= '9' || 'A' <= c && c <= 'Z' || 'a' <= c && c
            <= 'z'),
;

/// A character that may stand in an exported file's name on every system.
pub open spec fn is_plain(c: char) -> bool {
    alphanumeric(c) || c == ' ' || c == '-' || c == '_' || c == '.'
}

/// The text with every other character replaced by an underscore.
pub open spec fn plain_name(s: Text) -> Text {
    Seq::new(
        s.len(),
        |i: int|
            if is_plain(s[i]) {
                s[i]
            } else {
                '_'
            },
    )
}

/// A character that an exported file's name does not begin or end with.
pub open spec fn is_edge(c: char) -> bool {
    c == '.' || c == '_' || text::is_space(c)
}

/// The text without the edge characters it begins with.
pub open spec fn without_head(s: Text) -> Text
    decreases s.len(),
{
    if s.len() > 0 && is_edge(s.first()) {
        without_head(s.drop_first())
    } else {
        s
    }
}

/// The text without the edge characters it ends with.
pub open spec fn without_tail(s: Text) -> Text
    decreases s.len(),
{
    if s.len() > 0 && is_edge(s.last()) {
        without_tail(s.drop_last())
    } else {
        s
    }
}

/// The first characters of a text, at most `n`.
pub open spec fn first_chars(s: Text, n: nat) -> Text {
    if s.len() <= n {
        s
    } else {
        s.take(n as int)
    }
}

/// The stem of an exported message's name: its subject in plain characters,
/// at most sixty of them.
pub open spec fn export_stem(subject: Text) -> Text {
    first_chars(without_tail(without_head(plain_name(subject))), 60)
}

/// The default name of an exported message: from its subject, or from its UID
/// where the subject leaves nothing.
pub open spec fn export_name(subject: Text, uid: u32) -> Text {
    let stem = export_stem(subject);
    if stem.len() == 0 {
        "message-"@ + text::decimal(uid as nat) + ".eml"@
    } else {
        text::trim_end(stem) + ".eml"@
    }
}

/// Whether an exported file's name does not begin or end with `c`.
fn at_edge(c: char) -> (r: bool)
    ensures
        r == is_edge(c),
{
    c == '.' || c == '_' || c.is_whitespace()
}

/// A default file name for exporting a message: its subject, reduced to
/// characters that are safe in a file name everywhere, plus `.eml`.
pub fn export_file_name(subject: &str, uid: u32) -> (r: String)
    ensures
        r@ == export_name(subject@, uid),
{
    let v = text::chars_of(subject);
    let mut plain: Vec<char> = Vec::new();
    let mut i: usize = 0;
    while i < v.len()
        invariant
            i <= v@.len(),
            plain@ == plain_name(v@.take(i as int)),
        decreases v@.len() - i,
    {
        let c = v[i];
        let keep = c.is_alphanumeric() || c == ' ' || c == '-' || c == '_' || c == '.';
        plain.push(if keep { c } else { '_' });
        assert(plain@ =~= plain_name(v@.take(i + 1)));
        i += 1;
    }
    assert(v@.take(v@.len() as int) =~= v@);
    let mut from: usize = 0;
    assert(plain@.skip(0) =~= plain@);
    while from < plain.len() && at_edge(plain[from])
        invariant
            from <= plain@.len(),
            without_head(plain@) == without_head(plain@.skip(from as int)),
        ensures
            from <= plain@.len(),
            without_head(plain@) == without_head(plain@.skip(from as int)),
            from < plain@.len() ==> !is_edge(plain@[from as int]),
        decreases plain@.len() - from,
    {
        assert(plain@.skip(from as int).drop_first() =~= plain@.skip(from + 1));
        from += 1;
    }
    let ghost body = plain@.skip(from as int);
    let mut end: usize = plain.len();
    assert(body =~= plain@.subrange(from as int, end as int));
    while end > from && at_edge(plain[end - 1])
        invariant
            from <= end <= plain@.len(),
            without_tail(body) == without_tail(plain@.subrange(from as int, end as int)),
        ensures
            from <= end <= plain@.len(),
            without_tail(body) == without_tail(plain@.subrange(from as int, end as int)),
            end > from ==> !is_edge(plain@[end - 1]),
        decreases end,
    {
        assert(plain@.subrange(from as int, end as int).drop_last() =~= plain@.subrange(
            from as int,
            end - 1,
        ));
        end -= 1;
    }
    let cut: usize = if end - from > 60 {
        from + 60
    } else {
        end
    };
    let stem = text::string_of_range(&plain, from, cut);
    assert(stem@ =~= export_stem(subject@));
    if stem.as_str().is_empty() {
        let mut r = "message-".to_owned();
        r.append(text::to_decimal(uid as u64).as_str());
        r.append(".eml");
        r
    } else {
        let mut r = text::trimmed_end(stem.as_str());
        r.append(".eml");
        r
    }
}

proof fn lemma_without_head(s: Text)
    ensures
        without_head(s).len() <= s.len(),
        without_head(s).len() > 0 ==> !is_edge(without_head(s).first()),
        forall|i: int| 0 <= i < without_head(s).len() ==> s.contains(#[trigger] without_head(s)[i]),
    decreases s.len(),
{
    if s.len() > 0 && is_edge(s.first()) {
        lemma_without_head(s.drop_first());
        assert forall|i: int| 0 <= i < without_head(s).len() implies s.contains(
            #[trigger] without_head(s)[i],
        ) by {
            let c = without_head(s.drop_first())[i];
            let j = choose|j: int| 0 <= j < s.drop_first().len() && s.drop_first()[j] == c;
            assert(s[j + 1] == c);
        }
    }
}

proof fn lemma_without_tail(s: Text)
    ensures
        without_tail(s).len() <= s.len(),
        without_tail(s) == s.take(without_tail(s).len() as int),
    decreases s.len(),
{
    if s.len() > 0 && is_edge(s.last()) {
        lemma_without_tail(s.drop_last());
        assert(s.drop_last().take(without_tail(s).len() as int) =~= s.take(
            without_tail(s).len() as int,
        ));
    } else {
        assert(s.take(s.len() as int) =~= s);
    }
}

proof fn lemma_trim_end(s: Text)
    ensures
        text::trim_end(s).len() <= s.len(),
    decreases s.len(),
{
    if s.len() > 0 && text::is_space(s.last()) {
        lemma_trim_end(s.drop_last());
    }
}

/// An exported file's stem is at most sixty characters, holds plain characters
/// only and begins with none that hides or blurs a file name.
pub proof fn law_export_stem_is_plain(subject: Text)
    ensures
        export_stem(subject).len() <= 60,
        forall|i: int|
            0 <= i < export_stem(subject).len() ==> is_plain(#[trigger] export_stem(subject)[i]),
        export_stem(subject).len() > 0 ==> !is_edge(export_stem(subject).first()),
{
    let plain = plain_name(subject);
    let head = without_head(plain);
    let body = without_tail(head);
    lemma_without_head(plain);
    lemma_without_tail(head);
    assert forall|i: int| 0 <= i < export_stem(subject).len() implies is_plain(
        #[trigger] export_stem(subject)[i],
    ) by {
        assert(export_stem(subject)[i] == head[i]);
        let j = choose|j: int| 0 <= j < plain.len() && plain[j] == head[i];
        assert(is_plain(plain[j]));
    }
}

/// An exported file's name ends in `.eml`; one made from a subject is at most
/// sixty characters and the ending long.
pub proof fn law_export_name_is_bounded(subject: Text, uid: u32)
    ensures
        text::ends_with(export_name(subject, uid), ".eml"@),
        export_stem(subject).len() > 0 ==> export_name(subject, uid).len() <= 60 + ".eml"@.len(),
{
    let name = export_name(subject, uid);
    let stem = export_stem(subject);
    lemma_trim_end(stem);
    let ending = ".eml"@;
    assert(name.subrange(name.len() - ending.len(), name.len() as int) =~= ending);
}

// ── Sizes ───────────────────────────────────────────────────────────────────

/// The distance between neighbouring 53-bit floating-point numbers around `n`.
pub open spec fn spacing(n: nat) -> nat
    decreases n,
{
    if n < 0x20_0000_0000_0000 {
        1
    } else {
        2 * spacing(n / 2)
    }
}

/// `n` rounded to a multiple of `unit`, to the even multiple from halfway.
pub open spec fn rounded(n: nat, unit: nat) -> nat {
    let q = n / unit;
    let r = n % unit;
    if 2 * r > unit || (2 * r == unit && q % 2 == 1) {
        (q + 1) * unit
    } else {
        q * unit
    }
}

/// How many tenths of `unit` the size `n` is, rounded to the nearest, to the
/// even tenth from halfway.
pub open spec fn tenths(n: nat, unit: nat) -> nat {
    rounded(10 * n, unit) / unit
}

/// A number of tenths with one decimal place.
pub open spec fn one_place(t: nat) -> Text {
    text::decimal(t / 10) + "."@ + text::decimal(t % 10)
}

/// A byte count in words: exact below a kilobyte, else with one decimal place
/// in kilobytes or megabytes. A count that 53 bits cannot hold is first
/// rounded to one that they can.
pub open spec fn size_text(bytes: nat) -> Text {
    let n = rounded(bytes, spacing(bytes));
    if n >= 1048576 {
        one_place(tenths(n, 1048576)) + " MB"@
    } else if n >= 1024 {
        one_place(tenths(n, 1024)) + " KB"@
    } else {
        text::decimal(n) + " B"@
    }
}

proof fn lemma_spacing(n: nat)
    requires
        n <= u64::MAX,
    ensures
        1 <= spacing(n) <= 2048,
{
    reveal_with_fuel(spacing, 13);
}

/// The distance between neighbouring 53-bit floating-point numbers around `n`.
fn spacing_of(n: u64) -> (r: u128)
    ensures
        r == spacing(n as nat),
        1 <= r <= 2048,
    decreases n,
{
    proof {
        lemma_spacing(n as nat);
    }
    if n < 0x20_0000_0000_0000 {
        1
    } else {
        2 * spacing_of(n / 2)
    }
}

/// `n` rounded to a multiple of `unit`, to the even multiple from halfway.
fn round_to(n: u128, unit: u128) -> (r: u128)
    requires
        0 < unit <= 1048576,
        n <= 0x100_0000_0000_0000_0000,
    ensures
        r == rounded(n as nat, unit as nat),
        r <= n + unit,
{
    let q: u128 = n / unit;
    let r: u128 = n % unit;
    proof {
        vstd::arithmetic::div_mod::lemma_fundamental_div_mod(n as int, unit as int);
        assert(unit * q == q * unit) by (nonlinear_arith);
        assert((q + 1) * unit == q * unit + unit) by (nonlinear_arith);
    }
    if 2 * r > unit || (2 * r == unit && q % 2 == 1) {
        (q + 1) * unit
    } else {
        q * unit
    }
}

/// A size in tenths of a unit, as text.
fn tenths_text(n: u128, unit: u128) -> (r: String)
    requires
        1024 <= unit <= 1048576,
        n <= 0x2_0000_0000_0000_0000,
    ensures
        r@ == one_place(tenths(n as nat, unit as nat)),
{
    let whole: u128 = round_to(10 * n, unit);
    let t: u128 = whole / unit;
    proof {
        vstd::arithmetic::div_mod::lemma_div_is_ordered_by_denominator(
            whole as int,
            1024,
            unit as int,
        );
        assert(whole / 1024 <= u64::MAX);
    }
    let t: u64 = t as u64;
    let mut r = text::to_decimal(t / 10);
    r.append(".");
    r.append(text::to_decimal(t % 10).as_str());
    r
}

/// A human-readable size, `"4.2 KB"`.
pub fn format_size(bytes: usize) -> (r: String)
    ensures
        r@ == size_text(bytes as nat),
{
    let n: u128 = round_to(bytes as u128, spacing_of(bytes as u64));
    if n >= 1048576 {
        let mut r = tenths_text(n, 1048576);
        r.append(" MB");
        r
    } else if n >= 1024 {
        let mut r = tenths_text(n, 1024);
        r.append(" KB");
        r
    } else {
        let mut r = text::to_decimal(n as u64);
        r.append(" B");
        r
    }
}

/// Every size below a kilobyte is shown exactly.
pub proof fn law_small_sizes_are_exact(bytes: nat)
    requires
        bytes < 1024,
    ensures
        size_text(bytes) == text::decimal(bytes) + " B"@,
{
    assert(spacing(bytes) == 1);
}

} // verus!
