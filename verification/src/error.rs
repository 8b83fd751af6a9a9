//! Lexing errors: what went wrong, where, and the diagnostic line.

use vstd::prelude::*;
use vstd::string::StringExecFns;

verus! {

/// The taxonomy of lexing errors. None is recoverable.
#[derive(Clone, Copy, Debug, PartialEq, Eq)]
pub enum LexErrorKind {
    /// The byte at the start of a token opens no known kind of token.
    UnrecognizedToken,
    /// A number, string or identifier is followed by a character that is
    /// not whitespace, an operator or the end of the input.
    InvalidLiteralBoundary,
    /// The input or the line ends before the closing quote.
    UnterminatedStringLiteral,
    /// A raw tab stands inside a string literal.
    ForbiddenRawControlCharacterInString,
    /// A backslash in a string literal is followed by something that names
    /// no escape.
    InvalidEscapeSequence,
}

/// The exact condition that stopped the lexer. Each has its own message and
/// falls under one [`LexErrorKind`].
#[derive(Clone, Copy, Debug, PartialEq, Eq)]
pub enum LexFault {
    /// The byte at the start of a token opens no known kind of token.
    UnrecognizedToken,
    /// A number literal is followed by what may not follow it.
    AfterNumber,
    /// A string literal is followed by what may not follow it.
    AfterString,
    /// An identifier or keyword is followed by what may not follow it.
    AfterIdentifier,
    /// A raw tab inside a string literal.
    RawTab,
    /// A raw newline inside a string literal.
    RawNewline,
    /// The input ended inside a string literal.
    Unterminated,
    /// A backslash followed by whitespace or by the end of the input.
    MissingEscape,
    /// A backslash followed by a character that names no escape.
    UnknownEscape,
}

/// A lexing error with the place where the cursor stood when it was found.
#[derive(Clone, Debug, PartialEq, Eq)]
pub struct LexError {
    pub fault: LexFault,
    /// The name of the source that was being read.
    pub source: String,
    /// The line of the cursor, from 1.
    pub line: usize,
    /// The column of the cursor, from 1.
    pub column: usize,
}

/// What a [`LexError`] is, mathematically.
pub struct LexErrorView {
    pub fault: LexFault,
    pub source: Seq<char>,
    pub line: int,
    pub column: int,
}

impl View for LexError {
    type V = LexErrorView;

    open spec fn view(&self) -> LexErrorView {
        LexErrorView {
            fault: self.fault,
            source: self.source@,
            line: self.line as int,
            column: self.column as int,
        }
    }
}

/// The kind that a fault falls under.
pub open spec fn kind_of(fault: LexFault) -> LexErrorKind {
    match fault {
        LexFault::UnrecognizedToken => LexErrorKind::UnrecognizedToken,
        LexFault::AfterNumber | LexFault::AfterString | LexFault::AfterIdentifier =>
            LexErrorKind::InvalidLiteralBoundary,
        LexFault::RawTab => LexErrorKind::ForbiddenRawControlCharacterInString,
        LexFault::RawNewline | LexFault::Unterminated => LexErrorKind::UnterminatedStringLiteral,
        LexFault::MissingEscape | LexFault::UnknownEscape => LexErrorKind::InvalidEscapeSequence,
    }
}

/// The human-readable message of a fault.
pub open spec fn message_text(fault: LexFault) -> Seq<char> {
    match fault {
        LexFault::UnrecognizedToken => "unrecognizeable token"@,
        LexFault::AfterNumber => "illegal character(s) found after number literal"@,
        LexFault::AfterString => "illegal character(s) found after string literal"@,
        LexFault::AfterIdentifier => "illegal character(s) found after identifier"@,
        LexFault::RawTab => "use '\\t' instead of raw character"@,
        LexFault::RawNewline =>
            "missing terminating character (use '\\n' instead of raw character)"@,
        LexFault::Unterminated => "missing terminating character"@,
        LexFault::MissingEscape => "missing escape sequence"@,
        LexFault::UnknownEscape => "unrecognizeable escape sequence"@,
    }
}

/// The character of a single decimal digit `d`, for `d` below ten.
pub open spec fn digit_of(d: nat) -> char {
    ((48 + d) as u8) as char
}

/// A number in decimal, without sign or leading zeros.
pub open spec fn decimal(n: nat) -> Seq<char>
    decreases n,
{
    if n < 10 {
        seq![digit_of(n)]
    } else {
        decimal(n / 10).push(digit_of(n % 10))
    }
}

/// The diagnostic line of an error:
/// `Lexing error (F: <source> L: <line>, C: <column>): <message>.`
pub open spec fn diagnostic_text(error: LexErrorView) -> Seq<char> {
    "Lexing error (F: "@ + error.source + " L: "@ + decimal(error.line as nat) + ", C: "@ + decimal(
        error.column as nat,
    ) + "): "@ + message_text(error.fault) + "."@
}

/// Appends `n` in decimal to `out`.
pub fn push_decimal(out: &mut String, n: usize)
    ensures
        final(out)@ == old(out)@ + decimal(n as nat),
    decreases n,
{
    if n >= 10 {
        push_decimal(out, n / 10);
    }
    let digit: u8 = (n % 10) as u8;
    out.push((48 + digit) as char);
}

impl LexFault {
    /// The kind that this fault falls under.
    pub fn kind(&self) -> (kind: LexErrorKind)
        ensures
            kind == kind_of(*self),
    {
        match self {
            LexFault::UnrecognizedToken => LexErrorKind::UnrecognizedToken,
            LexFault::AfterNumber | LexFault::AfterString | LexFault::AfterIdentifier =>
                LexErrorKind::InvalidLiteralBoundary,
            LexFault::RawTab => LexErrorKind::ForbiddenRawControlCharacterInString,
            LexFault::RawNewline | LexFault::Unterminated =>
                LexErrorKind::UnterminatedStringLiteral,
            LexFault::MissingEscape | LexFault::UnknownEscape =>
                LexErrorKind::InvalidEscapeSequence,
        }
    }

    /// The human-readable message of this fault.
    pub fn message(&self) -> (message: &'static str)
        ensures
            message@ == message_text(*self),
    {
        match self {
            LexFault::UnrecognizedToken => "unrecognizeable token",
            LexFault::AfterNumber => "illegal character(s) found after number literal",
            LexFault::AfterString => "illegal character(s) found after string literal",
            LexFault::AfterIdentifier => "illegal character(s) found after identifier",
            LexFault::RawTab => "use '\\t' instead of raw character",
            LexFault::RawNewline =>
                "missing terminating character (use '\\n' instead of raw character)",
            LexFault::Unterminated => "missing terminating character",
            LexFault::MissingEscape => "missing escape sequence",
            LexFault::UnknownEscape => "unrecognizeable escape sequence",
        }
    }
}

impl LexError {
    /// The kind of this error.
    pub fn kind(&self) -> (kind: LexErrorKind)
        ensures
            kind == kind_of(self.fault),
    {
        self.fault.kind()
    }

    /// The diagnostic line to show to the user.
    pub fn diagnostic(&self) -> (text: String)
        ensures
            text@ == diagnostic_text(self@),
    {
        let mut text = String::from_str("Lexing error (F: ");
        text.append(self.source.as_str());
        text.append(" L: ");
        push_decimal(&mut text, self.line);
        text.append(", C: ");
        push_decimal(&mut text, self.column);
        text.append("): ");
        text.append(self.fault.message());
        text.append(".");
        text
    }
}

} // verus!
