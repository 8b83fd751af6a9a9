//! The grammar, as specification functions on the bytes of a source.
//!
//! A source is a sequence of bytes; the byte `b` is read as the character
//! `b as char`. An index `i` into it plays the role of the cursor. Nothing
//! here is executable: the engine is proved against these definitions.

use vstd::prelude::*;
use crate::classify::{
    digit_char, identifier_char, identifier_start, may_follow_literal, operator_char,
    separator_char, unescaped,
};
use crate::error::{LexErrorView, LexFault};
use crate::token::{keyword_kind, TokenKind, TokenView};

verus! {

/// The bytes that a source text is read as: its UTF-8 encoding.
pub open spec fn source_bytes(text: Seq<char>) -> Seq<u8> {
    vstd::utf8::encode_utf8(text)
}

/// The character at index `i`, or `None` outside the text.
pub open spec fn char_at(text: Seq<u8>, i: int) -> Option<char> {
    if 0 <= i < text.len() {
        Some(text[i] as char)
    } else {
        None
    }
}

/// The characters of the bytes from index `from` up to, not including, `to`.
pub open spec fn lexeme(text: Seq<u8>, from: int, to: int) -> Seq<char> {
    Seq::new((to - from) as nat, |k: int| text[from + k] as char)
}

/// The first index at or after `i` that holds no decimal digit.
pub open spec fn number_end(text: Seq<u8>, i: int) -> int
    decreases text.len() - i,
{
    if 0 <= i < text.len() && digit_char(text[i] as char) {
        number_end(text, i + 1)
    } else {
        i
    }
}

/// The first index at or after `i` that holds no identifier character.
pub open spec fn identifier_end(text: Seq<u8>, i: int) -> int
    decreases text.len() - i,
{
    if 0 <= i < text.len() && identifier_char(text[i] as char) {
        identifier_end(text, i + 1)
    } else {
        i
    }
}

/// How the body of a string literal reads.
pub enum StringBody {
    /// It closes: `raw` is the decoded contents, `close` the index of the
    /// closing quote.
    Closed { raw: Seq<char>, close: int },
    /// It does not: `fault` was found with the cursor at index `at`.
    Broken { fault: LexFault, at: int },
}

impl StringBody {
    /// This body with `prefix` put in front of its contents.
    pub open spec fn after(self, prefix: Seq<char>) -> StringBody {
        match self {
            StringBody::Closed { raw, close } => StringBody::Closed { raw: prefix + raw, close },
            StringBody::Broken { fault, at } => StringBody::Broken { fault, at },
        }
    }
}

/// The fault of a backslash followed by `c`, where `c` names no escape.
pub open spec fn escape_fault(c: char) -> LexFault {
    if separator_char(c) {
        LexFault::MissingEscape
    } else {
        LexFault::UnknownEscape
    }
}

/// The rest of a string literal, read with the cursor on index `cur`: the
/// opening quote, or the last byte of the contents read so far.
pub open spec fn string_body(text: Seq<u8>, cur: int) -> StringBody
    decreases text.len() - cur,
{
    match char_at(text, cur + 1) {
        None => StringBody::Broken { fault: LexFault::Unterminated, at: cur },
        Some(c) => {
            if c == '"' {
                StringBody::Closed { raw: Seq::empty(), close: cur + 1 }
            } else if c == '\t' {
                StringBody::Broken { fault: LexFault::RawTab, at: cur }
            } else if c == '\n' {
                StringBody::Broken { fault: LexFault::RawNewline, at: cur }
            } else if c == '\\' {
                match char_at(text, cur + 2) {
                    None => StringBody::Broken { fault: LexFault::MissingEscape, at: cur },
                    Some(e) => match unescaped(e) {
                        Some(decoded) => string_body(text, cur + 2).after(seq![decoded]),
                        None => StringBody::Broken { fault: escape_fault(e), at: cur + 2 },
                    },
                }
            } else {
                string_body(text, cur + 1).after(seq![c])
            }
        },
    }
}

/// The kind of the operator `c`.
pub open spec fn operator_kind(c: char) -> TokenKind {
    if c == '+' {
        TokenKind::OperatorPlus
    } else if c == '-' {
        TokenKind::OperatorMinus
    } else if c == '/' {
        TokenKind::OperatorDivide
    } else {
        TokenKind::OperatorMultiply
    }
}

/// What reading one token gives.
pub enum Scan {
    /// A token, whose last byte is at index `last`.
    Token { token: TokenView, last: int },
    /// No token: `fault` was found with the cursor at index `at`.
    Fault { fault: LexFault, at: int },
}

/// The token after a literal that ends at index `last`, subject to the
/// boundary rule; `fault` is what a violation is reported as.
pub open spec fn bounded(text: Seq<u8>, token: TokenView, last: int, fault: LexFault) -> Scan {
    if may_follow_literal(char_at(text, last + 1)) {
        Scan::Token { token, last }
    } else {
        Scan::Fault { fault, at: last }
    }
}

/// The number literal that starts at index `i`: the digits from there on,
/// as they stand.
pub open spec fn number_scan(text: Seq<u8>, i: int) -> Scan {
    let end: int = number_end(text, i + 1);
    bounded(
        text,
        TokenView { raw: lexeme(text, i, end), kind: TokenKind::NumLiteral },
        end - 1,
        LexFault::AfterNumber,
    )
}

/// The string literal whose opening quote is at index `i`: the decoded
/// contents, without the quotes.
pub open spec fn string_scan(text: Seq<u8>, i: int) -> Scan {
    match string_body(text, i) {
        StringBody::Closed { raw, close } => bounded(
            text,
            TokenView { raw, kind: TokenKind::StrLiteral },
            close,
            LexFault::AfterString,
        ),
        StringBody::Broken { fault, at } => Scan::Fault { fault, at },
    }
}

/// The identifier or keyword that starts at index `i`: the identifier
/// characters from there on, as they stand.
pub open spec fn identifier_scan(text: Seq<u8>, i: int) -> Scan {
    let end: int = identifier_end(text, i + 1);
    let raw = lexeme(text, i, end);
    bounded(text, TokenView { raw, kind: keyword_kind(raw) }, end - 1, LexFault::AfterIdentifier)
}

/// The token that starts at index `i`, which must lie inside the text.
pub open spec fn scan_token(text: Seq<u8>, i: int) -> Scan {
    let c = text[i] as char;
    if operator_char(c) {
        Scan::Token { token: TokenView { raw: seq![c], kind: operator_kind(c) }, last: i }
    } else if digit_char(c) {
        number_scan(text, i)
    } else if c == '"' {
        string_scan(text, i)
    } else if identifier_start(c) {
        identifier_scan(text, i)
    } else {
        Scan::Fault { fault: LexFault::UnrecognizedToken, at: i }
    }
}

/// What lexing one source from some index on gives.
pub enum Outcome {
    /// Its tokens, in order.
    Done { tokens: Seq<TokenView> },
    /// No tokens: `fault` was found with the cursor at index `at`.
    Fault { fault: LexFault, at: int },
}

impl Outcome {
    /// This outcome with `prefix` put in front of its tokens.
    pub open spec fn after(self, prefix: Seq<TokenView>) -> Outcome {
        match self {
            Outcome::Done { tokens } => Outcome::Done { tokens: prefix + tokens },
            Outcome::Fault { fault, at } => Outcome::Fault { fault, at },
        }
    }
}

/// The tokens of `text` from index `i` on: newlines, spaces and tabs
/// separate tokens, anything else starts one, and the first fault ends it
/// all.
pub open spec fn lex_text(text: Seq<u8>, i: int) -> Outcome
    decreases text.len() - i,
{
    if !(0 <= i < text.len()) {
        Outcome::Done { tokens: Seq::empty() }
    } else if separator_char(text[i] as char) {
        lex_text(text, i + 1)
    } else {
        match scan_token(text, i) {
            Scan::Token { token, last } => {
                proof {
                    lemma_scan_stays_inside(text, i);
                }
                lex_text(text, last + 1).after(seq![token])
            },
            Scan::Fault { fault, at } => Outcome::Fault { fault, at },
        }
    }
}

/// The line of the cursor at index `k`, where the line at index 0 is
/// `first`: one more for each newline before `k`.
pub open spec fn line_at(text: Seq<u8>, k: int, first: int) -> int
    decreases k,
{
    if k <= 0 {
        first
    } else if text[k - 1] as char == '\n' {
        line_at(text, k - 1, first) + 1
    } else {
        line_at(text, k - 1, first)
    }
}

/// The column of the cursor at index `k`, where the column at index 0 is
/// `first`: 1 right after a newline, else one more than at the index before.
pub open spec fn column_at(text: Seq<u8>, k: int, first: int) -> int
    decreases k,
{
    if k <= 0 {
        first
    } else if text[k - 1] as char == '\n' {
        1
    } else {
        column_at(text, k - 1, first) + 1
    }
}

/// What a whole run over several sources gives.
pub enum Run {
    /// All tokens, in order, and the line and column after the last byte.
    Done { tokens: Seq<TokenView>, line: int, column: int },
    /// No tokens: `fault` was found in source number `source`, with the
    /// cursor at the given line and column.
    Fault { source: int, fault: LexFault, line: int, column: int },
}

impl Run {
    /// This run with `prefix` put in front of its tokens.
    pub open spec fn after(self, prefix: Seq<TokenView>) -> Run {
        match self {
            Run::Done { tokens, line, column } => Run::Done {
                tokens: prefix + tokens,
                line,
                column,
            },
            Run::Fault { source, fault, line, column } => Run::Fault {
                source,
                fault,
                line,
                column,
            },
        }
    }
}

/// Lexing the sources from number `k` on, one after the other, where the
/// cursor stands at the given line and column before the first of them.
/// Lines and columns run on from one source to the next.
pub open spec fn lex_sources(texts: Seq<Seq<u8>>, k: int, line: int, column: int) -> Run
    decreases texts.len() - k,
{
    if !(0 <= k < texts.len()) {
        Run::Done { tokens: Seq::empty(), line, column }
    } else {
        let text = texts[k];
        match lex_text(text, 0) {
            Outcome::Done { tokens } => lex_sources(
                texts,
                k + 1,
                line_at(text, text.len() as int, line),
                column_at(text, text.len() as int, column),
            ).after(tokens),
            Outcome::Fault { fault, at } => Run::Fault {
                source: k,
                fault,
                line: line_at(text, at, line),
                column: column_at(text, at, column),
            },
        }
    }
}

/// The number of bytes in the sources from number `k` on.
pub open spec fn pending_bytes(texts: Seq<Seq<u8>>, k: int) -> nat
    decreases texts.len() - k,
{
    if !(0 <= k < texts.len()) {
        0
    } else {
        texts[k].len() + pending_bytes(texts, k + 1)
    }
}

/// The error that a faulty run is reported as, given the sources' names.
pub open spec fn reported(names: Seq<Seq<char>>, run: Run) -> LexErrorView
    recommends
        run is Fault,
{
    LexErrorView {
        fault: run->fault,
        source: names[run->source],
        line: run->Fault_line,
        column: run->Fault_column,
    }
}

/// A run of digits ends at or after its start, inside the text or at its
/// end, holds digits only, and cannot be extended.
pub proof fn lemma_number_end(text: Seq<u8>, i: int)
    requires
        0 <= i <= text.len(),
    ensures
        i <= number_end(text, i) <= text.len(),
        forall|k: int| i <= k < number_end(text, i) ==> digit_char(#[trigger] text[k] as char),
        number_end(text, i) < text.len() ==> !digit_char(text[number_end(text, i)] as char),
    decreases text.len() - i,
{
    if i < text.len() && digit_char(text[i] as char) {
        lemma_number_end(text, i + 1);
    }
}

/// A run of identifier characters ends at or after its start, inside the
/// text or at its end, holds identifier characters only, and cannot be
/// extended.
pub proof fn lemma_identifier_end(text: Seq<u8>, i: int)
    requires
        0 <= i <= text.len(),
    ensures
        i <= identifier_end(text, i) <= text.len(),
        forall|k: int|
            i <= k < identifier_end(text, i) ==> identifier_char(#[trigger] text[k] as char),
        identifier_end(text, i) < text.len() ==> !identifier_char(
            text[identifier_end(text, i)] as char,
        ),
    decreases text.len() - i,
{
    if i < text.len() && identifier_char(text[i] as char) {
        lemma_identifier_end(text, i + 1);
    }
}

/// A string literal closes after the cursor and inside the text; a fault in
/// it is found at or after the cursor and inside the text. No byte from the
/// cursor up to the place where the reading stops is a newline, but perhaps
/// the cursor's own.
pub proof fn lemma_string_body(text: Seq<u8>, cur: int)
    requires
        0 <= cur < text.len(),
    ensures
        match string_body(text, cur) {
            StringBody::Closed { raw, close } => cur < close < text.len() && forall|k: int|
                cur < k <= close ==> #[trigger] text[k] as char != '\n',
            StringBody::Broken { fault, at } => cur <= at < text.len() && forall|k: int|
                cur < k < at ==> #[trigger] text[k] as char != '\n',
        },
    decreases text.len() - cur,
{
    match char_at(text, cur + 1) {
        None => {},
        Some(c) => {
            if c == '"' || c == '\t' || c == '\n' {
            } else if c == '\\' {
                match char_at(text, cur + 2) {
                    None => {},
                    Some(e) => match unescaped(e) {
                        Some(decoded) => {
                            lemma_string_body(text, cur + 2);
                        },
                        None => {},
                    },
                }
            } else {
                lemma_string_body(text, cur + 1);
            }
        },
    }
}

/// A token ends at or after its start and inside the text.
pub proof fn lemma_scan_stays_inside(text: Seq<u8>, i: int)
    requires
        0 <= i < text.len(),
    ensures
        match scan_token(text, i) {
            Scan::Token { token, last } => i <= last < text.len(),
            Scan::Fault { fault, at } => i <= at < text.len(),
        },
{
    lemma_number_end(text, i + 1);
    lemma_identifier_end(text, i + 1);
    if text[i] as char == '"' {
        lemma_string_body(text, i);
    }
}

/// No byte of a token is a newline, and none from the start of a faulty
/// token up to the place where the fault was found.
pub proof fn lemma_scan_on_one_line(text: Seq<u8>, i: int)
    requires
        0 <= i < text.len(),
    ensures
        match scan_token(text, i) {
            Scan::Token { token, last } => forall|k: int|
                i <= k <= last ==> #[trigger] text[k] as char != '\n',
            Scan::Fault { fault, at } => forall|k: int|
                i <= k < at ==> #[trigger] text[k] as char != '\n',
        },
{
    lemma_number_end(text, i + 1);
    lemma_identifier_end(text, i + 1);
    if text[i] as char == '"' {
        lemma_string_body(text, i);
    }
}

/// Between two indices with no newline from the first up to the second, the
/// line stays and the column grows by the distance.
pub proof fn lemma_same_line(text: Seq<u8>, i: int, j: int, line: int, column: int)
    requires
        0 <= i <= j <= text.len(),
        forall|k: int| i <= k < j ==> #[trigger] text[k] as char != '\n',
    ensures
        line_at(text, j, line) == line_at(text, i, line),
        column_at(text, j, column) == column_at(text, i, column) + (j - i),
    decreases j - i,
{
    if i < j {
        lemma_same_line(text, i, j - 1, line, column);
    }
}

/// Lines and columns that start from 1 or more stay there, and grow by no
/// more than the number of bytes passed.
pub proof fn lemma_coordinates_bounded(text: Seq<u8>, k: int, line: int, column: int)
    requires
        0 <= k,
        1 <= line,
        1 <= column,
    ensures
        line <= line_at(text, k, line) <= line + k,
        1 <= column_at(text, k, column) <= column + k,
    decreases k,
{
    if k > 0 {
        lemma_coordinates_bounded(text, k - 1, line, column);
    }
}

} // verus!
