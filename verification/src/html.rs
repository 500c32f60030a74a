//! Text made safe to stand in a page, and text read back out of one.

use vstd::prelude::*;
use vstd::string::*;
use crate::text;
use crate::text::Text;

verus! {

broadcast use vstd::string::group_string_axioms;

/// What stands for a character in a page.
pub open spec fn escaped_char(c: char) -> Text {
    if c == '<' {
        "&lt;"@
    } else if c == '>' {
        "&gt;"@
    } else if c == '"' {
        "&quot;"@
    } else if c == '\'' {
        "&apos;"@
    } else if c == '`' {
        "&grave;"@
    } else if c == '/' {
        "&#47;"@
    } else if c == '&' {
        "&amp;"@
    } else if c == '=' {
        "&#61;"@
    } else if c == ' ' {
        "&#32;"@
    } else if c == '\t' {
        "&#9;"@
    } else if c == '\n' {
        "&#10;"@
    } else if c == '\u{c}' {
        "&#12;"@
    } else if c == '\r' {
        "&#13;"@
    } else if c == '\0' {
        "&#65533;"@
    } else {
        seq![c]
    }
}

/// What stands for a text in a page: each character by itself.
pub open spec fn escaped(s: Text) -> Text
    decreases s.len(),
{
    if s.len() == 0 {
        seq![]
    } else {
        escaped(s.drop_last()) + escaped_char(s.last())
    }
}

/// `ammonia::clean_text` replaces each character that means something in HTML
/// by an entity, after the table of [`escaped_char`], and passes every other
/// character through.
#[verifier::external_body]
pub(crate) fn escape(s: &str) -> (r: String)
    ensures
        r@ == escaped(s@),
{
    ammonia::clean_text(s)
}

/// The page that says that a message could not be loaded.
pub open spec fn failure_page(error: Text) -> Text {
    "<i>Could not load message: "@ + escaped(error) + "</i>"@
}

/// The page that says that a message could not be loaded.
pub fn load_failure_page(error: &str) -> (r: String)
    ensures
        r@ == failure_page(error@),
{
    let mut r = "<i>Could not load message: ".to_owned();
    r.append(escape(error).as_str());
    r.append("</i>");
    r
}

/// Escaped text holds nothing that could open or close a tag or an attribute.
pub proof fn law_escaped_text_holds_no_markup(s: Text)
    ensures
        forall|i: int|
            0 <= i < escaped(s).len() ==> #[trigger] escaped(s)[i] != '<' && escaped(s)[i] != '>'
                && escaped(s)[i] != '"' && escaped(s)[i] != '\'',
    decreases s.len(),
{
    if s.len() > 0 {
        law_escaped_text_holds_no_markup(s.drop_last());
        reveal_strlit("&lt;");
        reveal_strlit("&gt;");
        reveal_strlit("&quot;");
        reveal_strlit("&apos;");
        reveal_strlit("&grave;");
        reveal_strlit("&#47;");
        reveal_strlit("&amp;");
        reveal_strlit("&#61;");
        reveal_strlit("&#32;");
        reveal_strlit("&#9;");
        reveal_strlit("&#10;");
        reveal_strlit("&#12;");
        reveal_strlit("&#13;");
        reveal_strlit("&#65533;");
        let head = escaped(s.drop_last());
        let tail = escaped_char(s.last());
        assert forall|i: int| 0 <= i < escaped(s).len() implies #[trigger] escaped(s)[i] != '<'
            && escaped(s)[i] != '>' && escaped(s)[i] != '"' && escaped(s)[i] != '\'' by {
            if i < head.len() {
                assert(escaped(s)[i] == head[i]);
            } else {
                assert(escaped(s)[i] == tail[i - head.len()]);
            }
        }
    }
}

/// The character that the entity at the start of a text stands for, and the
/// entity's length: one of those that a serializer writes for the characters it
/// cannot leave in text.
pub open spec fn entity(s: Text) -> Option<(char, int)> {
    if s.len() >= 5 && s.take(5) == "&amp;"@ {
        Some(('&', 5))
    } else if s.len() >= 4 && s.take(4) == "&lt;"@ {
        Some(('<', 4))
    } else if s.len() >= 4 && s.take(4) == "&gt;"@ {
        Some(('>', 4))
    } else if s.len() >= 6 && s.take(6) == "&nbsp;"@ {
        Some(('\u{a0}', 6))
    } else {
        None
    }
}

/// A text with each entity, from left to right, replaced by its character.
pub open spec fn unescaped(s: Text) -> Text
    decreases s.len(),
{
    if s.len() == 0 {
        seq![]
    } else {
        match entity(s) {
            Some((c, n)) => seq![c] + unescaped(s.skip(n)),
            None => seq![s[0]] + unescaped(s.skip(1)),
        }
    }
}

/// The entity at position `i` of a text.
fn entity_at(v: &Vec<char>, i: usize) -> (r: Option<(char, usize)>)
    requires
        i < v@.len(),
    ensures
        match (r, entity(v@.skip(i as int))) {
            (Some((c, n)), Some((d, m))) => c == d && n == m && i + n <= v@.len(),
            (None, None) => true,
            _ => false,
        },
{
    proof {
        reveal_strlit("&amp;");
        reveal_strlit("&lt;");
        reveal_strlit("&gt;");
        reveal_strlit("&nbsp;");
        let s = v@.skip(i as int);
        if s.len() >= 4 {
            assert(s.take(4) =~= seq![s[0], s[1], s[2], s[3]]);
            assert("&lt;"@ =~= seq!['&', 'l', 't', ';']);
            assert("&gt;"@ =~= seq!['&', 'g', 't', ';']);
            assert(s[0] == s.take(4)[0] && s[1] == s.take(4)[1] && s[2] == s.take(4)[2] && s[3] == s.take(4)[3]);
        }
        if s.len() >= 5 {
            assert(s.take(5) =~= seq![s[0], s[1], s[2], s[3], s[4]]);
            assert("&amp;"@ =~= seq!['&', 'a', 'm', 'p', ';']);
            assert(s[1] == s.take(5)[1] && s[2] == s.take(5)[2] && s[3] == s.take(5)[3] && s[4] == s.take(5)[4]);
            assert(s[0] == s.take(5)[0]);
        }
        if s.len() >= 6 {
            assert(s.take(6) =~= seq![s[0], s[1], s[2], s[3], s[4], s[5]]);
            assert("&nbsp;"@ =~= seq!['&', 'n', 'b', 's', 'p', ';']);
            assert(s[1] == s.take(6)[1] && s[2] == s.take(6)[2] && s[3] == s.take(6)[3] && s[4] == s.take(6)[4]);
            assert(s[0] == s.take(6)[0] && s[5] == s.take(6)[5]);
        }
    }
    let left: usize = v.len() - i;
    if left < 4 || v[i] != '&' {
        return None;
    }
    if left >= 5 && v[i + 1] == 'a' && v[i + 2] == 'm' && v[i + 3] == 'p' && v[i + 4] == ';' {
        return Some(('&', 5));
    }
    if v[i + 1] == 'l' && v[i + 2] == 't' && v[i + 3] == ';' {
        return Some(('<', 4));
    }
    if v[i + 1] == 'g' && v[i + 2] == 't' && v[i + 3] == ';' {
        return Some(('>', 4));
    }
    if left >= 6 && v[i + 1] == 'n' && v[i + 2] == 'b' && v[i + 3] == 's' && v[i + 4] == 'p' && v[i + 5] == ';' {
        return Some(('\u{a0}', 6));
    }
    None
}

/// Replaces each entity of a serialized text, from left to right, by its
/// character.
pub fn unescape(s: &str) -> (r: String)
    ensures
        r@ == unescaped(s@),
{
    let v = text::chars_of(s);
    let mut r = String::new();
    let mut i: usize = 0;
    assert(s@.skip(0) =~= s@);
    while i < v.len()
        invariant
            v@ == s@,
            i <= v@.len(),
            r@ + unescaped(s@.skip(i as int)) == unescaped(s@),
        decreases v@.len() - i,
    {
        let ghost held = r@;
        let ghost rest = s@.skip(i as int);
        match entity_at(&v, i) {
            Some((c, n)) => {
                r.push(c);
                proof {
                    assert(rest.skip(n as int) =~= s@.skip(i + n));
                    assert(held.push(c) + unescaped(s@.skip(i + n)) =~= held + (seq![c] + unescaped(
                        s@.skip(i + n),
                    )));
                }
                i += n;
            },
            None => {
                r.push(v[i]);
                proof {
                    assert(rest.skip(1) =~= s@.skip(i + 1));
                    assert(held.push(v@[i as int]) + unescaped(s@.skip(i + 1)) =~= held + (seq![
                        v@[i as int],
                    ] + unescaped(s@.skip(i + 1))));
                }
                i += 1;
            },
        }
    }
    assert(r@ + unescaped(s@.skip(i as int)) =~= r@);
    r
}

/// A text that holds no `&` has no entities and reads as it is.
pub proof fn law_text_without_entities_stays(s: Text)
    requires
        !s.contains('&'),
    ensures
        unescaped(s) == s,
    decreases s.len(),
{
    if s.len() > 0 {
        reveal_strlit("&amp;");
        reveal_strlit("&lt;");
        reveal_strlit("&gt;");
        reveal_strlit("&nbsp;");
        assert(s[0] != '&');
        assert(entity(s) is None) by {
            if s.len() >= 4 {
                assert(s.take(4)[0] == s[0]);
            }
            if s.len() >= 5 {
                assert(s.take(5)[0] == s[0]);
            }
            if s.len() >= 6 {
                assert(s.take(6)[0] == s[0]);
            }
        }
        assert(!s.skip(1).contains('&')) by {
            if s.skip(1).contains('&') {
                let i = choose|i: int| 0 <= i < s.skip(1).len() && s.skip(1)[i] == '&';
                assert(s[i + 1] == '&');
            }
        }
        law_text_without_entities_stays(s.skip(1));
        assert(seq![s[0]] + s.skip(1) =~= s);
    } else {
        assert(unescaped(s) =~= s);
    }
}

/// A text with `&`, `<`, `>` and the no-break space written as entities.
pub open spec fn with_entities(s: Text) -> Text
    decreases s.len(),
{
    if s.len() == 0 {
        seq![]
    } else {
        let first = if s[0] == '&' {
            "&amp;"@
        } else if s[0] == '<' {
            "&lt;"@
        } else if s[0] == '>' {
            "&gt;"@
        } else if s[0] == '\u{a0}' {
            "&nbsp;"@
        } else {
            seq![s[0]]
        };
        first + with_entities(s.skip(1))
    }
}

/// Any text written with entities reads back as it was.
pub proof fn law_unescaping_reads_entities_back(s: Text)
    ensures
        unescaped(with_entities(s)) == s,
    decreases s.len(),
{
    if s.len() > 0 {
        reveal_strlit("&amp;");
        reveal_strlit("&lt;");
        reveal_strlit("&gt;");
        reveal_strlit("&nbsp;");
        let rest = with_entities(s.skip(1));
        let all = with_entities(s);
        law_unescaping_reads_entities_back(s.skip(1));
        if s[0] == '&' {
            assert(all.take(5) =~= "&amp;"@);
            assert(all.skip(5) =~= rest);
        } else if s[0] == '<' {
            assert(all.take(4) =~= "&lt;"@);
            assert(all.take(4)[1] == 'l');
            assert(all.len() >= 5 ==> all.take(5)[1] == 'l');
            assert(all.skip(4) =~= rest);
        } else if s[0] == '>' {
            assert(all.take(4) =~= "&gt;"@);
            assert(all.take(4)[1] == 'g');
            assert(all.len() >= 5 ==> all.take(5)[1] == 'g');
            assert(all.skip(4) =~= rest);
        } else if s[0] == '\u{a0}' {
            assert(all.take(6) =~= "&nbsp;"@);
            assert(all.take(4)[1] == 'n');
            assert(all.take(5)[1] == 'n');
            assert(all.skip(6) =~= rest);
        } else {
            assert(all[0] == s[0]);
            assert(all.len() >= 4 ==> all.take(4)[0] == s[0]);
            assert(all.len() >= 5 ==> all.take(5)[0] == s[0]);
            assert(all.len() >= 6 ==> all.take(6)[0] == s[0]);
            assert(entity(all) is None);
            assert(all.skip(1) =~= rest);
        }
        assert(unescaped(all) == seq![s[0]] + unescaped(rest));
        assert(seq![s[0]] + s.skip(1) =~= s);
    } else {
        assert(unescaped(with_entities(s)) =~= s);
    }
}

} // verus!
