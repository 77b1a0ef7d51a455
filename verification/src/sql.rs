//! Scalar codecs of the dump rows: booleans, the null marker, and escaped
//! text values.
use vstd::prelude::*;
use crate::error::OsmError;

verus! {

/// How a boolean is written in a row: `t` or `f`.
pub open spec fn bool_char(v: bool) -> char {
    if v {
        't'
    } else {
        'f'
    }
}

/// The single character that encodes `v` in a data row.
pub fn boolean_prefix(v: bool) -> (c: char)
    ensures
        c == bool_char(v),
{
    if v {
        't'
    } else {
        'f'
    }
}

/// The boolean tokens of a row, as a spec function.
pub open spec fn spec_parse_bool(s: Seq<char>) -> Option<bool> {
    if s == seq!['t'] {
        Some(true)
    } else if s == seq!['f'] {
        Some(false)
    } else {
        None
    }
}

/// Decodes a boolean field: `t` is true, `f` is false, any other token is an
/// error.
pub fn parse_sql_bool(s: &str) -> (r: Result<bool, OsmError>)
    ensures
        match r {
            Ok(v) => spec_parse_bool(s@) == Some(v) && s@ == seq![bool_char(v)],
            Err(e) => spec_parse_bool(s@) is None && e.kind == crate::error::ErrorKind::Structure
                && e.message@ == "wrong boolean literal: "@ + s@,
        },
{
    if s.unicode_len() == 1 {
        let c = s.get_char(0);
        if c == 't' {
            proof {
                assert(s@ =~= seq!['t']);
            }
            return Ok(true);
        }
        if c == 'f' {
            proof {
                assert(s@ =~= seq!['f']);
            }
            return Ok(false);
        }
    }
    Err(OsmError::new(crate::text::message_with("wrong boolean literal: ", s)))
}

/// The two characters that mark a null field.
pub open spec fn null_chars() -> Seq<char> {
    seq!['\\', 'N']
}

/// Appends the null marker to a row.
pub fn push_null(s: &mut String)
    ensures
        final(s)@ == old(s)@ + null_chars(),
{
    proof {
        reveal_strlit("\\N");
    }
    s.append("\\N");
    assert(final(s)@ =~= old(s)@ + null_chars());
}

/// The escape sequences of the dump text encoding: each of these characters
/// is written as a backslash followed by its code; all others stand as they
/// are.
pub open spec fn escape_code(c: char) -> Option<char> {
    if c == '\u{7}' {
        Some('a')
    } else if c == '\u{8}' {
        Some('b')
    } else if c == '\t' {
        Some('t')
    } else if c == '\n' {
        Some('n')
    } else if c == '\u{b}' {
        Some('v')
    } else if c == '\u{c}' {
        Some('f')
    } else if c == '\r' {
        Some('r')
    } else if c == ' ' {
        Some(' ')
    } else if c == '\\' {
        Some('\\')
    } else {
        None
    }
}

/// A text value with every special character escaped.
pub open spec fn escape_chars(s: Seq<char>) -> Seq<char>
    decreases s.len(),
{
    if s.len() == 0 {
        s
    } else {
        (match escape_code(s[0]) {
            Some(e) => seq!['\\', e],
            None => seq![s[0]],
        }) + escape_chars(s.drop_first())
    }
}

/// No character of the value needs escaping.
pub open spec fn escape_free(s: Seq<char>) -> bool {
    forall|i: int| 0 <= i < s.len() ==> escape_code(#[trigger] s[i]) is None
}

/// Escaping a value without special characters leaves it unchanged.
pub proof fn lemma_escape_free_id(s: Seq<char>)
    requires
        escape_free(s),
    ensures
        escape_chars(s) == s,
    decreases s.len(),
{
    if s.len() > 0 {
        assert(escape_free(s.drop_first())) by {
            assert(forall|i: int|
                0 <= i < s.len() - 1 ==> #[trigger] s.drop_first()[i] == s[i + 1]);
        }
        lemma_escape_free_id(s.drop_first());
        assert(escape_chars(s) =~= s);
    }
}

/// Escaped text never contains a tab or a newline, so it can stand in a
/// tab-separated row on a line of its own.
pub proof fn lemma_escape_no_separators(s: Seq<char>)
    ensures
        forall|i: int|
            0 <= i < escape_chars(s).len() ==> #[trigger] escape_chars(s)[i] != '\t'
                && escape_chars(s)[i] != '\n',
    decreases s.len(),
{
    if s.len() > 0 {
        lemma_escape_no_separators(s.drop_first());
        let head = match escape_code(s[0]) {
            Some(e) => seq!['\\', e],
            None => seq![s[0]],
        };
        let tail = escape_chars(s.drop_first());
        assert(escape_chars(s) == head + tail);
        assert forall|i: int| 0 <= i < escape_chars(s).len() implies #[trigger] escape_chars(s)[i]
            != '\t' && escape_chars(s)[i] != '\n' by {
            if i < head.len() {
                assert(escape_chars(s)[i] == head[i]);
            } else {
                assert(escape_chars(s)[i] == tail[i - head.len()]);
            }
        }
    }
}

/// Relies on escape_string::escape: each special character (bell, backspace,
/// tab, newline, vertical tab, form feed, carriage return, space, backslash)
/// becomes a backslash pair, and every other character is kept, in order.
#[verifier::external_body]
pub(crate) fn escape_str(s: &str) -> (r: String)
    ensures
        r@ == escape_chars(s@),
{
    escape_string::escape(s).into_owned()
}

/// Escapes a text value for a data row.
pub fn escape_value(s: &str) -> (r: String)
    ensures
        r@ == escape_chars(s@),
{
    escape_str(s)
}

} // verus!
