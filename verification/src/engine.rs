//! The lexer engine: the registry of sources, the cursor, and the scanning
//! algorithm.

use vstd::prelude::*;
use vstd::string::StringExecFns;
use crate::classify::{
    is_blank, is_digit, is_identifier, is_identifier_start, is_operator, is_separator,
    literal_can_proceed, unescape,
};
use crate::error::{LexError, LexErrorView, LexFault};
use crate::grammar::{
    char_at, column_at, identifier_end, identifier_scan, lemma_coordinates_bounded,
    lemma_same_line, lemma_scan_on_one_line, lemma_scan_stays_inside, lex_sources, lex_text,
    lexeme, line_at, number_end, number_scan, pending_bytes, reported, scan_token,
    source_bytes, string_body, string_scan, Outcome, Run, Scan,
};
use crate::token::{match_identifier, token_views, Token, TokenKind, TokenView};

verus! {

/// Where the engine stands: the model of the lexer's private counters.
pub struct Cursor {
    /// The number of the current source, from 0. Sources before it have
    /// been read.
    pub file_index: int,
    /// The byte offset into the current source.
    pub index: int,
    /// The line, from 1. It runs on from one source to the next.
    pub line: int,
    /// The column, from 1. It runs on from one source to the next.
    pub column: int,
}

impl Cursor {
    /// This cursor moved on to index `index` of the same source, over bytes
    /// that hold no newline: the column grows by the distance.
    pub open spec fn moved_to(self, index: int) -> Cursor {
        Cursor { index, column: self.column + (index - self.index), ..self }
    }
}

/// The lexer: feed it sources, then call [`Lexer::lex`].
///
/// The sources are kept in the order in which they were fed, and read in
/// that order. Lines and columns are counted through all of them: the
/// second source starts at the line and column where the first ended.
pub struct Lexer {
    index: usize,
    file_index: usize,
    input: Vec<(String, String)>,
    line: usize,
    position: usize,
    /// The tokens of all sources read so far, in order.
    pub tokens: Vec<Token>,
}

impl Lexer {
    /// The names of the registered sources, in the order of registration.
    pub closed spec fn names(&self) -> Seq<Seq<char>> {
        Seq::new(self.input@.len(), |k: int| self.input@[k].0@)
    }

    /// The texts of the registered sources, in the order of registration.
    pub closed spec fn texts(&self) -> Seq<Seq<char>> {
        Seq::new(self.input@.len(), |k: int| self.input@[k].1@)
    }

    /// Where the lexer stands.
    pub closed spec fn cursor(&self) -> Cursor {
        Cursor {
            file_index: self.file_index as int,
            index: self.index as int,
            line: self.line as int,
            column: self.position as int,
        }
    }

    /// The tokens read so far: the views of `tokens`, in order.
    pub closed spec fn emitted(&self) -> Seq<TokenView> {
        token_views(self.tokens@)
    }

    /// The registered sources as the bytes that the engine reads.
    pub open spec fn bytes(&self) -> Seq<Seq<u8>> {
        self.texts().map_values(|text: Seq<char>| source_bytes(text))
    }

    /// The bytes of the current source.
    pub open spec fn current(&self) -> Seq<u8>
        recommends
            self.on_source(),
    {
        self.bytes()[self.cursor().file_index]
    }

    /// Every source has a name and a text, the current source is a
    /// registered one or the next to be registered, and lines and columns
    /// count from 1.
    pub open spec fn wf(&self) -> bool {
        &&& self.names().len() == self.texts().len()
        &&& self.cursor().file_index <= self.texts().len()
        &&& self.cursor().line >= 1
        &&& self.cursor().column >= 1
    }

    /// There is a current source: one that is registered and not read yet.
    pub open spec fn on_source(&self) -> bool {
        &&& self.names().len() == self.texts().len()
        &&& self.cursor().file_index < self.texts().len()
    }

    /// The column counter can follow the cursor to the end of the current
    /// source without overflow.
    pub open spec fn column_fits(&self) -> bool {
        self.cursor().column + self.current().len() - self.cursor().index <= usize::MAX
    }

    /// The line and column counters can follow the cursor to the end of the
    /// last registered source without overflow.
    pub open spec fn run_fits(&self) -> bool {
        let pending = pending_bytes(self.bytes(), self.cursor().file_index);
        &&& self.cursor().line + pending <= usize::MAX
        &&& self.cursor().column + pending <= usize::MAX
    }

    /// The same sources, and the same tokens.
    pub open spec fn same_content(&self, other: &Lexer) -> bool {
        &&& self.names() == other.names()
        &&& self.texts() == other.texts()
        &&& self.emitted() == other.emitted()
    }

    /// This lexer is what reading one token makes of `before`, and `result`
    /// what it returns, where the grammar says that the token reads as
    /// `scan`: the sources and tokens are as before; the cursor has moved
    /// to the token's last byte, or to where the fault was found; and
    /// `result` is the token, or the error for the fault at that place.
    pub open spec fn lands(
        &self,
        before: &Lexer,
        scan: Scan,
        result: Result<Token, LexError>,
    ) -> bool {
        &&& self.same_content(before)
        &&& match scan {
            Scan::Token { token, last } => {
                &&& self.cursor() == before.cursor().moved_to(last)
                &&& result is Ok
                &&& result->Ok_0@ == token
            },
            Scan::Fault { fault, at } => {
                &&& self.cursor() == before.cursor().moved_to(at)
                &&& result is Err
                &&& result->Err_0@ == (LexErrorView {
                    fault,
                    source: before.names()[before.cursor().file_index],
                    line: before.cursor().line,
                    column: before.cursor().column + (at - before.cursor().index),
                })
            },
        }
    }

    /// A lexer with no source and no token, at line 1, column 1.
    pub fn new() -> (lexer: Lexer)
        ensures
            lexer.wf(),
            lexer.names() == Seq::<Seq<char>>::empty(),
            lexer.texts() == Seq::<Seq<char>>::empty(),
            lexer.cursor() == (Cursor { file_index: 0, index: 0, line: 1, column: 1 }),
            lexer.emitted() == Seq::<TokenView>::empty(),
    {
        Lexer {
            index: 0,
            file_index: 0,
            input: Vec::new(),
            line: 1,
            position: 1,
            tokens: Vec::new(),
        }
    }

    /// Registers a source, given as its name and its text, after those
    /// already registered.
    pub fn feed_file(&mut self, input: (String, String))
        ensures
            final(self).names() == old(self).names().push(input.0@),
            final(self).texts() == old(self).texts().push(input.1@),
            final(self).cursor() == old(self).cursor(),
            final(self).emitted() == old(self).emitted(),
            old(self).wf() ==> final(self).wf(),
    {
        self.input.push(input);
    }

    /// Appends `input` to the text of the current source: the first one
    /// that has not been read. There must be one.
    pub fn feed(&mut self, input: String)
        requires
            old(self).on_source(),
        ensures
            final(self).names() == old(self).names(),
            final(self).texts() == old(self).texts().update(
                old(self).cursor().file_index,
                old(self).texts()[old(self).cursor().file_index] + input@,
            ),
            final(self).cursor() == old(self).cursor(),
            final(self).emitted() == old(self).emitted(),
            old(self).wf() ==> final(self).wf(),
    {
        self.input[self.file_index].1.append(input.as_str());
    }

    /// Whether [`Lexer::lex`] can count lines and columns to the end of the
    /// last registered source without overflow.
    pub fn can_lex(&self) -> (fits: bool)
        ensures
            fits == self.run_fits(),
    {
        let ghost texts = self.bytes();
        let mut pending: usize = 0;
        let mut k: usize = self.file_index;
        while k < self.input.len()
            invariant
                texts == self.bytes(),
                texts.len() == self.input@.len(),
                self.cursor().file_index <= k,
                pending + pending_bytes(texts, k as int) == pending_bytes(
                    texts,
                    self.cursor().file_index,
                ),
            decreases self.input.len() - k,
        {
            let len: usize = self.input[k].1.as_str().as_bytes().len();
            if len > usize::MAX - pending {
                return false;
            }
            pending += len;
            k += 1;
        }
        self.line <= usize::MAX - pending && self.position <= usize::MAX - pending
    }

    /// The tokens read so far.
    pub fn tokens(&self) -> (tokens: &Vec<Token>)
        ensures
            token_views(tokens@) == self.emitted(),
    {
        &self.tokens
    }

    /// The number of the current source, from 0.
    pub fn file_index(&self) -> (k: usize)
        ensures
            k == self.cursor().file_index,
    {
        self.file_index
    }

    /// The byte offset of the cursor into the current source.
    pub fn index(&self) -> (i: usize)
        ensures
            i == self.cursor().index,
    {
        self.index
    }

    /// The line of the cursor, from 1.
    pub fn line(&self) -> (line: usize)
        ensures
            line == self.cursor().line,
    {
        self.line
    }

    /// The column of the cursor, from 1.
    pub fn position(&self) -> (column: usize)
        ensures
            column == self.cursor().column,
    {
        self.position
    }

    /// The error for `fault`, found where the cursor stands.
    pub fn error(&self, fault: LexFault) -> (error: LexError)
        requires
            self.on_source(),
        ensures
            error@ == (LexErrorView {
                fault,
                source: self.names()[self.cursor().file_index],
                line: self.cursor().line,
                column: self.cursor().column,
            }),
    {
        LexError {
            fault,
            source: self.input[self.file_index].0.clone(),
            line: self.line,
            column: self.position,
        }
    }

    /// The character under the cursor.
    pub fn current_char(&self) -> (c: char)
        requires
            self.on_source(),
            self.cursor().index < self.current().len(),
        ensures
            Some(c) == char_at(self.current(), self.cursor().index),
    {
        let bytes = self.input[self.file_index].1.as_str().as_bytes();
        bytes[self.index] as char
    }

    /// The character `peek` bytes after the cursor, or `None` past the end
    /// of the current source. The cursor stays.
    pub fn temp_peek_char(&self, peek: usize) -> (c: Option<char>)
        requires
            self.on_source(),
        ensures
            c == char_at(self.current(), self.cursor().index + peek),
    {
        let bytes = self.input[self.file_index].1.as_str().as_bytes();
        if self.index >= bytes.len() || peek >= bytes.len() - self.index {
            None
        } else {
            Some(bytes[self.index + peek] as char)
        }
    }

    /// Moves the cursor `peek` bytes on and returns the character there; or
    /// returns `None`, and leaves the cursor, where that is past the end of
    /// the current source.
    pub fn peek_char(&mut self, peek: usize) -> (c: Option<char>)
        requires
            old(self).on_source(),
            old(self).column_fits(),
        ensures
            c == char_at(old(self).current(), old(self).cursor().index + peek),
            final(self).same_content(old(self)),
            final(self).cursor() == if c is Some {
                Cursor {
                    index: old(self).cursor().index + peek,
                    column: old(self).cursor().column + peek,
                    ..old(self).cursor()
                }
            } else {
                old(self).cursor()
            },
    {
        let bytes = self.input[self.file_index].1.as_str().as_bytes();
        if self.index >= bytes.len() || peek >= bytes.len() - self.index {
            return None;
        }
        let c = bytes[self.index + peek] as char;
        self.index += peek;
        self.position += peek;
        Some(c)
    }

    /// Reads the number literal that starts under the cursor, where `first`
    /// stands.
    fn number_literal(&mut self, first: char) -> (result: Result<Token, LexError>)
        requires
            old(self).on_source(),
            old(self).column_fits(),
            char_at(old(self).current(), old(self).cursor().index) == Some(first),
        ensures
            final(self).lands(
                old(self),
                number_scan(old(self).current(), old(self).cursor().index),
                result,
            ),
    {
        let ghost text = self.current();
        let ghost start = self.cursor();
        let mut raw = String::new();
        raw.push(first);
        loop
            invariant
                self.on_source(),
                self.same_content(old(self)),
                self.current() == text,
                start.index <= self.cursor().index < text.len(),
                self.cursor() == start.moved_to(self.cursor().index),
                start.column + text.len() - start.index <= usize::MAX,
                number_end(text, self.cursor().index + 1) == number_end(text, start.index + 1),
                raw@ == lexeme(text, start.index, self.cursor().index + 1),
            ensures
                number_end(text, start.index + 1) == self.cursor().index + 1,
            decreases text.len() - self.cursor().index,
        {
            match self.temp_peek_char(1) {
                Some(d) => {
                    if is_digit(d) {
                        let _ = self.peek_char(1);
                        raw.push(d);
                    } else {
                        break;
                    }
                },
                None => {
                    break;
                },
            }
        }
        if literal_can_proceed(self.temp_peek_char(1)) {
            Ok(Token::new(raw, TokenKind::NumLiteral))
        } else {
            Err(self.error(LexFault::AfterNumber))
        }
    }

    /// Reads the identifier or keyword that starts under the cursor, where
    /// `first` stands.
    fn identifier(&mut self, first: char) -> (result: Result<Token, LexError>)
        requires
            old(self).on_source(),
            old(self).column_fits(),
            char_at(old(self).current(), old(self).cursor().index) == Some(first),
        ensures
            final(self).lands(
                old(self),
                identifier_scan(old(self).current(), old(self).cursor().index),
                result,
            ),
    {
        let ghost text = self.current();
        let ghost start = self.cursor();
        let mut raw = String::new();
        raw.push(first);
        loop
            invariant
                self.on_source(),
                self.same_content(old(self)),
                self.current() == text,
                start.index <= self.cursor().index < text.len(),
                self.cursor() == start.moved_to(self.cursor().index),
                start.column + text.len() - start.index <= usize::MAX,
                identifier_end(text, self.cursor().index + 1) == identifier_end(
                    text,
                    start.index + 1,
                ),
                raw@ == lexeme(text, start.index, self.cursor().index + 1),
            ensures
                identifier_end(text, start.index + 1) == self.cursor().index + 1,
            decreases text.len() - self.cursor().index,
        {
            match self.temp_peek_char(1) {
                Some(c) => {
                    if is_identifier(c) {
                        let _ = self.peek_char(1);
                        raw.push(c);
                    } else {
                        break;
                    }
                },
                None => {
                    break;
                },
            }
        }
        if literal_can_proceed(self.temp_peek_char(1)) {
            let kind = match_identifier(raw.clone());
            Ok(Token::new(raw, kind))
        } else {
            Err(self.error(LexFault::AfterIdentifier))
        }
    }

    /// Reads the string literal whose opening quote is under the cursor.
    fn string_literal(&mut self) -> (result: Result<Token, LexError>)
        requires
            old(self).on_source(),
            old(self).column_fits(),
            old(self).cursor().index < old(self).current().len(),
        ensures
            final(self).lands(
                old(self),
                string_scan(old(self).current(), old(self).cursor().index),
                result,
            ),
    {
        let ghost text = self.current();
        let ghost start = self.cursor();
        let mut raw = String::new();
        loop
            invariant
                self.on_source(),
                self.same_content(old(self)),
                self.current() == text,
                start.index <= self.cursor().index < text.len(),
                self.cursor() == start.moved_to(self.cursor().index),
                start.column + text.len() - start.index <= usize::MAX,
                string_body(text, start.index) == string_body(text, self.cursor().index).after(
                    raw@,
                ),
                text == old(self).current(),
                start == old(self).cursor(),
                old(self).on_source(),
            ensures
                char_at(text, self.cursor().index + 1) == Some('"'),
            decreases text.len() - self.cursor().index,
        {
            let ghost seen = raw@;
            match self.temp_peek_char(1) {
                None => {
                    return Err(self.error(LexFault::Unterminated));
                },
                Some(c) => {
                    if c == '"' {
                        break;
                    } else if c == '\t' {
                        return Err(self.error(LexFault::RawTab));
                    } else if c == '\n' {
                        return Err(self.error(LexFault::RawNewline));
                    } else if c == '\\' {
                        match self.peek_char(2) {
                            None => {
                                return Err(self.error(LexFault::MissingEscape));
                            },
                            Some(e) => match unescape(e) {
                                Some(decoded) => {
                                    raw.push(decoded);
                                    assert forall|rest: Seq<char>|
                                        seen + (seq![decoded] + rest) == raw@ + rest by {}
                                },
                                None => {
                                    if is_separator(e) {
                                        return Err(self.error(LexFault::MissingEscape));
                                    } else {
                                        return Err(self.error(LexFault::UnknownEscape));
                                    }
                                },
                            },
                        }
                    } else {
                        let _ = self.peek_char(1);
                        raw.push(c);
                        assert forall|rest: Seq<char>| seen + (seq![c] + rest) == raw@ + rest by {}
                    }
                },
            }
        }
        let _ = self.peek_char(1);
        if literal_can_proceed(self.temp_peek_char(1)) {
            Ok(Token::new(raw, TokenKind::StrLiteral))
        } else {
            Err(self.error(LexFault::AfterString))
        }
    }

    /// Reads the token that starts under the cursor, and leaves the cursor
    /// on the token's last byte; or finds the fault that keeps it from
    /// being one, and leaves the cursor where it was found.
    pub fn get_token(&mut self) -> (result: Result<Token, LexError>)
        requires
            old(self).on_source(),
            old(self).column_fits(),
            old(self).cursor().index < old(self).current().len(),
        ensures
            final(self).lands(
                old(self),
                scan_token(old(self).current(), old(self).cursor().index),
                result,
            ),
    {
        let c = self.current_char();
        if is_operator(c) {
            let kind = if c == '+' {
                TokenKind::OperatorPlus
            } else if c == '-' {
                TokenKind::OperatorMinus
            } else if c == '/' {
                TokenKind::OperatorDivide
            } else {
                TokenKind::OperatorMultiply
            };
            let mut raw = String::new();
            raw.push(c);
            Ok(Token::new(raw, kind))
        } else if is_digit(c) {
            self.number_literal(c)
        } else if c == '"' {
            self.string_literal()
        } else if is_identifier_start(c) {
            self.identifier(c)
        } else {
            Err(self.error(LexFault::UnrecognizedToken))
        }
    }

    /// Reads the current source from its first byte to its last, and puts
    /// its tokens at the end of `out`.
    fn lex_source(&mut self, out: &mut Vec<Token>) -> (result: Result<(), LexError>)
        requires
            old(self).on_source(),
            old(self).cursor().line + old(self).current().len() <= usize::MAX,
            old(self).cursor().column + old(self).current().len() <= usize::MAX,
        ensures
            final(self).same_content(old(self)),
            match lex_text(old(self).current(), 0) {
                Outcome::Done { tokens } => {
                    &&& result is Ok
                    &&& token_views(final(out)@) == token_views(old(out)@) + tokens
                    &&& final(self).cursor() == (Cursor {
                        file_index: old(self).cursor().file_index,
                        index: old(self).current().len() as int,
                        line: line_at(
                            old(self).current(),
                            old(self).current().len() as int,
                            old(self).cursor().line,
                        ),
                        column: column_at(
                            old(self).current(),
                            old(self).current().len() as int,
                            old(self).cursor().column,
                        ),
                    })
                },
                Outcome::Fault { fault, at } => {
                    &&& result is Err
                    &&& result->Err_0@ == (LexErrorView {
                        fault,
                        source: old(self).names()[old(self).cursor().file_index],
                        line: line_at(old(self).current(), at, old(self).cursor().line),
                        column: column_at(old(self).current(), at, old(self).cursor().column),
                    })
                    &&& final(self).cursor() == (Cursor {
                        file_index: old(self).cursor().file_index,
                        index: at,
                        line: result->Err_0@.line,
                        column: result->Err_0@.column,
                    })
                },
            },
    {
        let ghost text = self.current();
        let ghost first = self.cursor();
        let ghost before = token_views(out@);
        let ghost mut emitted: Seq<TokenView> = Seq::empty();
        let len: usize = self.input[self.file_index].1.as_str().as_bytes().len();
        self.index = 0;
        while self.index < len
            invariant
                old(self).on_source(),
                text == old(self).current(),
                first == old(self).cursor(),
                self.on_source(),
                self.same_content(old(self)),
                self.current() == text,
                len == text.len(),
                self.cursor().file_index == first.file_index,
                0 <= self.cursor().index <= len,
                self.cursor().line == line_at(text, self.cursor().index, first.line),
                self.cursor().column == column_at(text, self.cursor().index, first.column),
                self.cursor().line + len - self.cursor().index <= first.line + len <= usize::MAX,
                self.cursor().column + len - self.cursor().index <= first.column + len
                    <= usize::MAX,
                token_views(out@) == before + emitted,
                before == token_views(old(out)@),
                lex_text(text, 0) == lex_text(text, self.cursor().index).after(emitted),
            decreases len - self.index,
        {
            let ghost i = self.cursor().index;
            let c = self.current_char();
            if c == '\n' {
                self.line += 1;
                self.position = 1;
                self.index += 1;
            } else if is_blank(c) {
                self.position += 1;
                self.index += 1;
            } else {
                proof {
                    lemma_scan_stays_inside(text, i);
                    lemma_scan_on_one_line(text, i);
                }
                match self.get_token() {
                    Ok(token) => {
                        let ghost last = self.cursor().index;
                        let ghost seen = emitted;
                        proof {
                            lemma_same_line(text, i, last + 1, first.line, first.column);
                            emitted = emitted.push(token@);
                            assert(before + seen.push(token@) =~= (before + seen).push(token@));
                            assert forall|rest: Seq<TokenView>|
                                seen + (seq![token@] + rest) == emitted + rest by {}
                        }
                        out.push(token);
                        self.position += 1;
                        self.index += 1;
                    },
                    Err(e) => {
                        proof {
                            lemma_same_line(text, i, self.cursor().index, first.line, first.column);
                        }
                        return Err(e);
                    },
                }
            }
        }
        Ok(())
    }

    /// Reads every source that has not been read yet, in the order of
    /// registration, and puts their tokens at the end of `tokens`. At the
    /// first fault it stops, returns the error, and leaves the lexer as it
    /// was: no token of this call is kept.
    ///
    /// The counters of lines and columns must be able to follow the cursor
    /// to the end of the last source; [`Lexer::can_lex`] tells whether they
    /// can.
    pub fn lex(&mut self) -> (result: Result<(), LexError>)
        requires
            old(self).wf(),
            old(self).run_fits(),
        ensures
            final(self).wf(),
            final(self).names() == old(self).names(),
            final(self).texts() == old(self).texts(),
            match lex_sources(
                old(self).bytes(),
                old(self).cursor().file_index,
                old(self).cursor().line,
                old(self).cursor().column,
            ) {
                Run::Done { tokens, line, column } => {
                    &&& result is Ok
                    &&& final(self).emitted() == old(self).emitted() + tokens
                    &&& final(self).cursor() == (Cursor {
                        file_index: old(self).texts().len() as int,
                        index: if old(self).on_source() {
                            old(self).bytes().last().len() as int
                        } else {
                            old(self).cursor().index
                        },
                        line,
                        column,
                    })
                },
                Run::Fault { source, fault, line, column } => {
                    &&& result is Err
                    &&& result->Err_0@ == reported(
                        old(self).names(),
                        Run::Fault { source, fault, line, column },
                    )
                    &&& final(self).emitted() == old(self).emitted()
                    &&& final(self).cursor() == old(self).cursor()
                },
            },
    {
        let start_file: usize = self.file_index;
        let start_index: usize = self.index;
        let start_line: usize = self.line;
        let start_position: usize = self.position;
        let ghost texts = self.bytes();
        let ghost first = self.cursor();
        let ghost goal = lex_sources(texts, first.file_index, first.line, first.column);
        let mut fresh: Vec<Token> = Vec::new();
        while self.file_index < self.input.len()
            invariant
                old(self).wf(),
                first == old(self).cursor(),
                texts == old(self).bytes(),
                start_file == first.file_index,
                start_index == first.index,
                start_line == first.line,
                start_position == first.column,
                self.same_content(old(self)),
                self.bytes() == texts,
                self.wf(),
                self.input@.len() == texts.len(),
                first.file_index <= self.cursor().file_index,
                self.cursor().index == if self.cursor().file_index > first.file_index {
                    texts[self.cursor().file_index - 1].len() as int
                } else {
                    first.index
                },
                self.cursor().line + pending_bytes(texts, self.cursor().file_index) <= usize::MAX,
                self.cursor().column + pending_bytes(texts, self.cursor().file_index)
                    <= usize::MAX,
                goal == lex_sources(texts, first.file_index, first.line, first.column),
                goal == lex_sources(
                    texts,
                    self.cursor().file_index,
                    self.cursor().line,
                    self.cursor().column,
                ).after(token_views(fresh@)),
            decreases self.input.len() - self.file_index,
        {
            let ghost k = self.cursor().file_index;
            let ghost line = self.cursor().line;
            let ghost column = self.cursor().column;
            let ghost seen = token_views(fresh@);
            proof {
                lemma_coordinates_bounded(texts[k], texts[k].len() as int, line, column);
            }
            match self.lex_source(&mut fresh) {
                Ok(()) => {
                    self.file_index += 1;
                    proof {
                        let tokens = lex_text(texts[k], 0)->tokens;
                        assert forall|rest: Seq<TokenView>|
                            seen + (tokens + rest) == token_views(fresh@) + rest by {}
                    }
                },
                Err(e) => {
                    self.file_index = start_file;
                    self.index = start_index;
                    self.line = start_line;
                    self.position = start_position;
                    return Err(e);
                },
            }
        }
        self.tokens.append(&mut fresh);
        Ok(())
    }
}

} // verus!
