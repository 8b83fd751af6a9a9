//! The token model: kinds, and the token record.

use vstd::prelude::*;
use vstd::string::StringExecFns;

verus! {

/// The closed set of token kinds.
#[derive(Clone, Copy, Debug, PartialEq, Eq)]
pub enum TokenKind {
    /// A placeholder. The lexer never emits it.
    Dummy,
    /// A run of decimal digits.
    NumLiteral,
    /// A string literal in double quotes.
    StrLiteral,
    /// Identifier-shaped text that is no keyword.
    Identifier,
    /// `+`
    OperatorPlus,
    /// `-`
    OperatorMinus,
    /// `/`
    OperatorDivide,
    /// `*`
    OperatorMultiply,
    /// The keyword `fn`.
    KwFunction,
    /// The keyword `var`.
    KwVariable,
}

/// A classified lexeme.
///
/// `raw` is the digits of a number, the text of an identifier or keyword,
/// the single character of an operator, or the decoded contents of a string
/// literal without its quotes.
#[derive(Clone, Debug, PartialEq, Eq)]
pub struct Token {
    raw: String,
    kind: TokenKind,
}

/// What a token is, mathematically.
pub struct TokenView {
    pub raw: Seq<char>,
    pub kind: TokenKind,
}

impl View for Token {
    type V = TokenView;

    closed spec fn view(&self) -> TokenView {
        TokenView { raw: self.raw@, kind: self.kind }
    }
}

/// The views of a sequence of tokens, in order.
pub open spec fn token_views(tokens: Seq<Token>) -> Seq<TokenView> {
    tokens.map_values(|t: Token| t@)
}

/// The keyword table: `fn` and `var` are keywords, by exact match; any other
/// identifier-shaped text is an identifier.
pub open spec fn keyword_kind(text: Seq<char>) -> TokenKind {
    if text == seq!['f', 'n'] {
        TokenKind::KwFunction
    } else if text == seq!['v', 'a', 'r'] {
        TokenKind::KwVariable
    } else {
        TokenKind::Identifier
    }
}

impl Token {
    /// The token of the given text and kind.
    pub fn new(raw: String, kind: TokenKind) -> (token: Token)
        ensures
            token@ == (TokenView { raw: raw@, kind }),
    {
        Token { raw, kind }
    }

    /// The text of the token.
    pub fn raw(&self) -> (raw: &str)
        ensures
            raw@ == self@.raw,
    {
        self.raw.as_str()
    }

    /// The kind of the token.
    pub fn kind(&self) -> (kind: TokenKind)
        ensures
            kind == self@.kind,
    {
        self.kind
    }
}

/// Looks `identifier` up in the keyword table.
pub fn match_identifier(identifier: String) -> (kind: TokenKind)
    ensures
        kind == keyword_kind(identifier@),
{
    proof {
        reveal_strlit("fn");
        reveal_strlit("var");
        assert("fn"@ =~= seq!['f', 'n']);
        assert("var"@ =~= seq!['v', 'a', 'r']);
    }
    let function = String::from_str("fn");
    let variable = String::from_str("var");
    if identifier == function {
        TokenKind::KwFunction
    } else if identifier == variable {
        TokenKind::KwVariable
    } else {
        TokenKind::Identifier
    }
}

} // verus!
