//! Properties of the grammar that hold for every input.

use vstd::prelude::*;
use crate::classify::{digit_char, identifier_char, may_follow_literal, separator_char};
use crate::grammar::{
    char_at, column_at, lemma_identifier_end, lemma_number_end, lemma_same_line,
    lemma_scan_stays_inside, lex_sources, lex_text, lexeme, line_at, scan_token, source_bytes,
    string_body, Outcome, Run, Scan,
};
use crate::token::{keyword_kind, TokenKind, TokenView};

verus! {

/// A text of newlines, spaces and tabs only.
pub open spec fn blank_text(text: Seq<u8>) -> bool {
    forall|k: int| 0 <= k < text.len() ==> separator_char(#[trigger] text[k] as char)
}

/// What every token of the lexer is like: its kind is not the placeholder,
/// and its text is not empty, unless it is a string literal.
pub open spec fn proper_token(token: TokenView) -> bool {
    &&& token.kind != TokenKind::Dummy
    &&& token.kind != TokenKind::StrLiteral ==> token.raw.len() > 0
}

/// The kind of an operator.
pub open spec fn operator_token(kind: TokenKind) -> bool {
    kind == TokenKind::OperatorPlus || kind == TokenKind::OperatorMinus || kind
        == TokenKind::OperatorDivide || kind == TokenKind::OperatorMultiply
}

/// The tokens of the sources from number `k` on, each lexed by itself, one
/// after the other.
pub open spec fn joined_tokens(texts: Seq<Seq<u8>>, k: int) -> Seq<TokenView>
    decreases texts.len() - k,
{
    if !(0 <= k < texts.len()) {
        Seq::empty()
    } else {
        lex_text(texts[k], 0)->tokens + joined_tokens(texts, k + 1)
    }
}

/// A text of newlines, spaces and tabs only has no token and no fault, from
/// whatever index it is read.
pub proof fn lemma_blank_text_has_no_token(text: Seq<u8>, i: int)
    requires
        blank_text(text),
    ensures
        lex_text(text, i) == (Outcome::Done { tokens: Seq::empty() }),
    decreases text.len() - i,
{
    if 0 <= i < text.len() {
        lemma_blank_text_has_no_token(text, i + 1);
    }
}

/// A run over sources of newlines, spaces and tabs only gives no token and
/// no fault.
pub proof fn lemma_blank_sources_have_no_token(
    texts: Seq<Seq<u8>>,
    k: int,
    line: int,
    column: int,
)
    requires
        forall|j: int| k <= j < texts.len() ==> blank_text(#[trigger] texts[j]),
    ensures
        lex_sources(texts, k, line, column) is Done,
        lex_sources(texts, k, line, column)->tokens == Seq::<TokenView>::empty(),
    decreases texts.len() - k,
{
    if 0 <= k < texts.len() {
        let text = texts[k];
        lemma_blank_text_has_no_token(text, 0);
        let next_line = line_at(text, text.len() as int, line);
        let next_column = column_at(text, text.len() as int, column);
        lemma_blank_sources_have_no_token(texts, k + 1, next_line, next_column);
        let rest = lex_sources(texts, k + 1, next_line, next_column)->tokens;
    }
}

/// Right after a newline the line is one more and the column is 1,
/// whatever they were before.
pub proof fn lemma_newline_starts_a_line(text: Seq<u8>, k: int, line: int, column: int)
    requires
        0 <= k < text.len(),
        text[k] as char == '\n',
    ensures
        line_at(text, k + 1, line) == line_at(text, k, line) + 1,
        column_at(text, k + 1, column) == 1,
{
}

/// On a line that a newline at index `j` opens, the column of index `k` is
/// its distance from that newline.
pub proof fn lemma_column_counts_from_newline(text: Seq<u8>, j: int, k: int, column: int)
    requires
        0 <= j < k <= text.len(),
        text[j] as char == '\n',
        forall|m: int| j < m < k ==> #[trigger] text[m] as char != '\n',
    ensures
        column_at(text, k, column) == k - j,
{
    lemma_same_line(text, j + 1, k, 0, column);
}

/// A run gives the tokens of its sources, each lexed by itself, one after
/// the other and with nothing between them; it fails in the first source
/// that has a fault, with that fault. Neither depends on the line and the
/// column that the run starts with.
pub proof fn lemma_run_joins_sources(texts: Seq<Seq<u8>>, k: int, line: int, column: int)
    requires
        0 <= k,
    ensures
        match lex_sources(texts, k, line, column) {
            Run::Done { tokens, .. } => {
                &&& tokens == joined_tokens(texts, k)
                &&& forall|j: int| k <= j < texts.len() ==> lex_text(#[trigger] texts[j], 0) is Done
            },
            Run::Fault { source, fault, .. } => {
                &&& k <= source < texts.len()
                &&& lex_text(texts[source], 0) is Fault
                &&& lex_text(texts[source], 0)->fault == fault
                &&& forall|j: int| k <= j < source ==> lex_text(#[trigger] texts[j], 0) is Done
            },
        },
    decreases texts.len() - k,
{
    if k < texts.len() {
        let text = texts[k];
        lemma_run_joins_sources(
            texts,
            k + 1,
            line_at(text, text.len() as int, line),
            column_at(text, text.len() as int, column),
        );
    }
}

/// Runs compose: reading the sources up to number `n` in one run, and the
/// rest in a second run that starts at the line and column where the first
/// ended, gives what one run over all of them gives. A fault in the first
/// run is the fault of the whole.
pub proof fn lemma_runs_compose(texts: Seq<Seq<u8>>, k: int, n: int, line: int, column: int)
    requires
        0 <= k <= n <= texts.len(),
    ensures
        lex_sources(texts, k, line, column) == match lex_sources(texts.take(n), k, line, column) {
            Run::Done { tokens, line: next_line, column: next_column } => lex_sources(
                texts,
                n,
                next_line,
                next_column,
            ).after(tokens),
            Run::Fault { source, fault, line: at_line, column: at_column } => Run::Fault {
                source,
                fault,
                line: at_line,
                column: at_column,
            },
        },
    decreases n - k,
{
    if k < n {
        let text = texts[k];
        let next_line = line_at(text, text.len() as int, line);
        let next_column = column_at(text, text.len() as int, column);
        lemma_runs_compose(texts, k + 1, n, next_line, next_column);
        if let Outcome::Done { tokens } = lex_text(text, 0) {
            if let Run::Done { tokens: more, line: end_line, column: end_column } = lex_sources(
                texts.take(n),
                k + 1,
                next_line,
                next_column,
            ) {
                if let Run::Done { tokens: last, .. } = lex_sources(texts, n, end_line, end_column) {
                    assert(tokens + (more + last) =~= (tokens + more) + last);
                }
            }
        }
    }
}

/// A token that the grammar reads is proper.
pub proof fn lemma_scanned_token_is_proper(text: Seq<u8>, i: int)
    requires
        0 <= i < text.len(),
    ensures
        scan_token(text, i) matches Scan::Token { token, .. } ==> proper_token(token),
{
    lemma_number_end(text, i + 1);
    lemma_identifier_end(text, i + 1);
}

/// Every token of a text is proper.
pub proof fn lemma_tokens_are_proper(text: Seq<u8>, i: int)
    ensures
        lex_text(text, i) matches Outcome::Done { tokens } ==> forall|n: int|
            0 <= n < tokens.len() ==> proper_token(#[trigger] tokens[n]),
    decreases text.len() - i,
{
    if 0 <= i < text.len() {
        if separator_char(text[i] as char) {
            lemma_tokens_are_proper(text, i + 1);
        } else {
            lemma_scanned_token_is_proper(text, i);
            lemma_scan_stays_inside(text, i);
            match scan_token(text, i) {
                Scan::Token { token, last } => {
                    lemma_tokens_are_proper(text, last + 1);
                },
                Scan::Fault { .. } => {},
            }
        }
    }
}

/// Every token of a run is proper.
pub proof fn lemma_run_tokens_are_proper(texts: Seq<Seq<u8>>, k: int, line: int, column: int)
    ensures
        lex_sources(texts, k, line, column) matches Run::Done { tokens, .. } ==> forall|n: int|
            0 <= n < tokens.len() ==> proper_token(#[trigger] tokens[n]),
    decreases texts.len() - k,
{
    if 0 <= k < texts.len() {
        let text = texts[k];
        lemma_tokens_are_proper(text, 0);
        lemma_run_tokens_are_proper(
            texts,
            k + 1,
            line_at(text, text.len() as int, line),
            column_at(text, text.len() as int, column),
        );
    }
}

/// The text of a number, of an identifier, of a keyword and of an operator
/// is the text of the source from the token's first byte to its last, as it
/// stands. A number holds decimal digits only, and an identifier or keyword
/// holds identifier characters only.
pub proof fn lemma_token_text_is_source_text(text: Seq<u8>, i: int)
    requires
        0 <= i < text.len(),
    ensures
        scan_token(text, i) matches Scan::Token { token, last } ==> {
            &&& token.kind != TokenKind::StrLiteral ==> token.raw == lexeme(text, i, last + 1)
            &&& token.kind == TokenKind::NumLiteral ==> forall|n: int|
                0 <= n < token.raw.len() ==> digit_char(#[trigger] token.raw[n])
            &&& token.kind == TokenKind::Identifier || token.kind == TokenKind::KwFunction
                || token.kind == TokenKind::KwVariable ==> forall|n: int|
                0 <= n < token.raw.len() ==> identifier_char(#[trigger] token.raw[n])
        },
{
    lemma_number_end(text, i + 1);
    lemma_identifier_end(text, i + 1);
}

/// The boundary rule: a number, a string, an identifier or a keyword that
/// the grammar reads is followed by a newline, a space, a tab, an operator
/// or the end of the text.
pub proof fn lemma_literal_ends_at_boundary(text: Seq<u8>, i: int)
    requires
        0 <= i < text.len(),
    ensures
        scan_token(text, i) matches Scan::Token { token, last } ==> operator_token(token.kind)
            || may_follow_literal(char_at(text, last + 1)),
{
}

/// The keyword table matches whole texts: a text is the function keyword
/// only if it is `fn`, and the variable keyword only if it is `var`.
pub proof fn lemma_keywords_are_exact(text: Seq<char>)
    ensures
        keyword_kind(text) == TokenKind::KwFunction <==> text == seq!['f', 'n'],
        keyword_kind(text) == TokenKind::KwVariable <==> text == seq!['v', 'a', 'r'],
        keyword_kind(text) == TokenKind::KwFunction || keyword_kind(text) == TokenKind::KwVariable
            || keyword_kind(text) == TokenKind::Identifier,
{
}

/// A string literal with no closing quote before the end of the text is a
/// fault, whatever it holds: read on from any index `cur` after which no
/// quote stands, and so from its opening quote.
pub proof fn lemma_open_string_is_fault(text: Seq<u8>, cur: int)
    requires
        0 <= cur < text.len(),
        forall|k: int| cur < k < text.len() ==> #[trigger] text[k] as char != '"',
    ensures
        string_body(text, cur) is Broken,
        text[cur] as char == '"' ==> scan_token(text, cur) is Fault,
    decreases text.len() - cur,
{
    if cur + 2 < text.len() {
        lemma_open_string_is_fault(text, cur + 2);
    }
    if cur + 1 < text.len() {
        lemma_open_string_is_fault(text, cur + 1);
    }
}

/// Text of ASCII characters is read as it stands: byte by byte, each byte
/// as the character that it encodes.
pub proof fn lemma_ascii_text_reads_as_itself(text: Seq<char>)
    requires
        vstd::utf8::is_ascii_chars(text),
    ensures
        source_bytes(text).len() == text.len(),
        forall|i: int|
            0 <= i < text.len() ==> #[trigger] char_at(source_bytes(text), i) == Some(text[i]),
{
    vstd::utf8::is_ascii_chars_encode_utf8(text);
}

/// Text appended to a source is read after what the source held: the bytes
/// of two texts joined are the bytes of the first, then those of the second.
pub proof fn lemma_appended_text_reads_after(first: Seq<char>, second: Seq<char>)
    ensures
        source_bytes(first + second) == source_bytes(first) + source_bytes(second),
    decreases first.len(),
{
    if first.len() > 0 {
        lemma_appended_text_reads_after(first.drop_first(), second);
        assert((first + second).drop_first() =~= first.drop_first() + second);
    }
}

} // verus!
