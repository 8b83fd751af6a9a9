//! Character classes of the grammar.

use vstd::prelude::*;

verus! {

/// A decimal digit, `0` to `9`.
pub open spec fn digit_char(c: char) -> bool {
    '0' <= c <= '9'
}

/// A character that may open an identifier: an ASCII letter or `_`.
pub open spec fn identifier_start(c: char) -> bool {
    c == '_' || 'a' <= c <= 'z' || 'A' <= c <= 'Z'
}

/// A character that may continue an identifier: an ASCII letter, a decimal
/// digit or `_`.
pub open spec fn identifier_char(c: char) -> bool {
    identifier_start(c) || digit_char(c)
}

/// One of the four operator characters.
pub open spec fn operator_char(c: char) -> bool {
    c == '+' || c == '-' || c == '/' || c == '*'
}

/// Whitespace that separates tokens inside a line: space or tab.
pub open spec fn blank_char(c: char) -> bool {
    c == ' ' || c == '\t'
}

/// A character that stands between tokens and belongs to none: a newline, a
/// space or a tab.
pub open spec fn separator_char(c: char) -> bool {
    c == '\n' || blank_char(c)
}

/// The boundary rule: what may stand right after a number, a string or an
/// identifier. `None` is the end of the input.
pub open spec fn may_follow_literal(next: Option<char>) -> bool {
    match next {
        None => true,
        Some(c) => separator_char(c) || operator_char(c),
    }
}

/// The character that `\` followed by `c` stands for inside a string
/// literal, if `c` names an escape.
pub open spec fn unescaped(c: char) -> Option<char> {
    if c == 'r' {
        Some('\r')
    } else if c == 'n' {
        Some('\n')
    } else if c == 't' {
        Some('\t')
    } else if c == '\\' {
        Some('\\')
    } else {
        None
    }
}

/// Whether `what` is a decimal digit.
pub fn is_digit(what: char) -> (b: bool)
    ensures
        b == digit_char(what),
{
    what >= '0' && what <= '9'
}

/// Whether `what` may open an identifier.
pub fn is_identifier_start(what: char) -> (b: bool)
    ensures
        b == identifier_start(what),
{
    what == '_' || (what >= 'a' && what <= 'z') || (what >= 'A' && what <= 'Z')
}

/// Whether `what` may continue an identifier.
pub fn is_identifier(what: char) -> (b: bool)
    ensures
        b == identifier_char(what),
{
    is_identifier_start(what) || is_digit(what)
}

/// Whether `what` is an operator character.
pub fn is_operator(what: char) -> (b: bool)
    ensures
        b == operator_char(what),
{
    what == '+' || what == '-' || what == '/' || what == '*'
}

/// Whether `what` is a space or a tab.
pub fn is_blank(what: char) -> (b: bool)
    ensures
        b == blank_char(what),
{
    what == ' ' || what == '\t'
}

/// Whether `what` stands between tokens: a newline, a space or a tab.
pub fn is_separator(what: char) -> (b: bool)
    ensures
        b == separator_char(what),
{
    what == '\n' || is_blank(what)
}

/// Whether `what` may stand right after a number, a string or an identifier;
/// `None` is the end of the input.
pub fn literal_can_proceed(what: Option<char>) -> (b: bool)
    ensures
        b == may_follow_literal(what),
{
    match what {
        None => true,
        Some(c) => is_separator(c) || is_operator(c),
    }
}

/// The character that a backslash followed by `what` stands for in a string
/// literal, if any.
pub fn unescape(what: char) -> (r: Option<char>)
    ensures
        r == unescaped(what),
{
    if what == 'r' {
        Some('\r')
    } else if what == 'n' {
        Some('\n')
    } else if what == 't' {
        Some('\t')
    } else if what == '\\' {
        Some('\\')
    } else {
        None
    }
}

} // verus!
