use lexer::classify::{
    is_blank, is_digit, is_identifier_start, is_operator, is_separator, unescape,
};
use lexer::{
    is_identifier, literal_can_proceed, match_identifier, LexFault, Lexer, Token, TokenKind,
};

fn on(text: &str) -> Lexer {
    let mut lexer = Lexer::new();
    lexer.feed_file((String::from("input"), String::from(text)));
    lexer
}

#[test]
fn new_lexer_is_at_the_start() {
    let lexer = Lexer::new();
    assert_eq!(lexer.file_index(), 0);
    assert_eq!(lexer.index(), 0);
    assert_eq!(lexer.line(), 1);
    assert_eq!(lexer.position(), 1);
    assert!(lexer.tokens.is_empty());
    assert!(lexer.tokens().is_empty());
    assert!(lexer.can_lex());
}

#[test]
fn current_char_reads_under_the_cursor() {
    let lexer = on("x1");
    assert_eq!(lexer.current_char(), 'x');
}

#[test]
fn temp_peek_leaves_the_cursor() {
    let lexer = on("ab");
    assert_eq!(lexer.temp_peek_char(0), Some('a'));
    assert_eq!(lexer.temp_peek_char(1), Some('b'));
    assert_eq!(lexer.temp_peek_char(2), None);
    assert_eq!(lexer.temp_peek_char(usize::MAX), None);
    assert_eq!(lexer.index(), 0);
    assert_eq!(lexer.position(), 1);
}

#[test]
fn temp_peek_on_empty_source() {
    let lexer = on("");
    assert_eq!(lexer.temp_peek_char(0), None);
    assert_eq!(lexer.temp_peek_char(1), None);
}

#[test]
fn peek_moves_the_cursor() {
    let mut lexer = on("abcd");
    assert_eq!(lexer.peek_char(1), Some('b'));
    assert_eq!((lexer.index(), lexer.position()), (1, 2));
    assert_eq!(lexer.peek_char(2), Some('d'));
    assert_eq!((lexer.index(), lexer.position()), (3, 4));
    assert_eq!(lexer.current_char(), 'd');
}

#[test]
fn peek_past_the_end_leaves_the_cursor() {
    let mut lexer = on("ab");
    assert_eq!(lexer.peek_char(2), None);
    assert_eq!((lexer.index(), lexer.position()), (0, 1));
    assert_eq!(lexer.peek_char(1), Some('b'));
    assert_eq!(lexer.peek_char(1), None);
    assert_eq!((lexer.index(), lexer.position()), (1, 2));
    assert_eq!(lexer.line(), 1);
}

#[test]
fn peek_reads_a_nul_byte_as_a_character() {
    let mut lexer = on("a\0");
    assert_eq!(lexer.temp_peek_char(1), Some('\0'));
    assert_eq!(lexer.peek_char(1), Some('\0'));
    assert_eq!(lexer.index(), 1);
}

#[test]
fn peek_reads_bytes_not_characters() {
    let lexer = on("\u{e9}");
    assert_eq!(lexer.current_char(), '\u{c3}');
    assert_eq!(lexer.temp_peek_char(1), Some('\u{a9}'));
    assert_eq!(lexer.temp_peek_char(2), None);
}

#[test]
fn get_token_stops_on_the_last_byte() {
    let mut lexer = on("abc+12 \"s\\n\"");
    assert_eq!(lexer.get_token(), Ok(Token::new(String::from("abc"), TokenKind::Identifier)));
    assert_eq!((lexer.index(), lexer.position()), (2, 3));

    assert_eq!(lexer.peek_char(1), Some('+'));
    assert_eq!(lexer.get_token(), Ok(Token::new(String::from("+"), TokenKind::OperatorPlus)));
    assert_eq!((lexer.index(), lexer.position()), (3, 4));

    assert_eq!(lexer.peek_char(1), Some('1'));
    assert_eq!(lexer.get_token(), Ok(Token::new(String::from("12"), TokenKind::NumLiteral)));
    assert_eq!((lexer.index(), lexer.position()), (5, 6));

    assert_eq!(lexer.peek_char(2), Some('"'));
    assert_eq!(lexer.get_token(), Ok(Token::new(String::from("s\n"), TokenKind::StrLiteral)));
    assert_eq!((lexer.index(), lexer.position()), (11, 12));
    assert_eq!(lexer.temp_peek_char(1), None);

    assert_eq!(lexer.line(), 1);
    assert_eq!(lexer.file_index(), 0);
    assert!(lexer.tokens.is_empty());
}

#[test]
fn get_token_stops_where_the_fault_is() {
    let mut lexer = on("\"ab\\q\"");
    let error = lexer.get_token().unwrap_err();
    assert_eq!(error.fault, LexFault::UnknownEscape);
    assert_eq!((error.line, error.column), (1, 5));
    assert_eq!((lexer.index(), lexer.position()), (4, 5));

    let mut lexer = on("12x");
    let error = lexer.get_token().unwrap_err();
    assert_eq!(error.fault, LexFault::AfterNumber);
    assert_eq!((lexer.index(), lexer.position()), (1, 2));

    let mut lexer = on("\n");
    let error = lexer.get_token().unwrap_err();
    assert_eq!(error.fault, LexFault::UnrecognizedToken);
    assert_eq!((lexer.index(), lexer.position()), (0, 1));
}

#[test]
fn error_is_made_at_the_cursor() {
    let mut lexer = on("abc");
    assert_eq!(lexer.peek_char(2), Some('c'));
    let error = lexer.error(LexFault::RawTab);
    assert_eq!(error.fault, LexFault::RawTab);
    assert_eq!(error.source, "input");
    assert_eq!((error.line, error.column), (1, 3));
}

#[test]
fn identifier_characters() {
    for code in 0u32..=0x2ff {
        let c = char::from_u32(code).unwrap();
        assert_eq!(is_identifier(c), c.is_ascii_alphanumeric() || c == '_', "{:?}", c);
        assert_eq!(is_identifier_start(c), c.is_ascii_alphabetic() || c == '_', "{:?}", c);
        assert_eq!(is_digit(c), c.is_ascii_digit(), "{:?}", c);
    }
}

#[test]
fn what_may_follow_a_literal() {
    assert!(literal_can_proceed(None));
    for code in 0u32..=0x2ff {
        let c = char::from_u32(code).unwrap();
        assert_eq!(literal_can_proceed(Some(c)), " \t\n+-/*".contains(c), "{:?}", c);
        assert_eq!(is_operator(c), "+-/*".contains(c), "{:?}", c);
        assert_eq!(is_blank(c), " \t".contains(c), "{:?}", c);
        assert_eq!(is_separator(c), " \t\n".contains(c), "{:?}", c);
    }
}

#[test]
fn escapes() {
    assert_eq!(unescape('r'), Some('\r'));
    assert_eq!(unescape('n'), Some('\n'));
    assert_eq!(unescape('t'), Some('\t'));
    assert_eq!(unescape('\\'), Some('\\'));
    assert_eq!(unescape('"'), None);
    assert_eq!(unescape('0'), None);
    assert_eq!(unescape(' '), None);
    assert_eq!(unescape('R'), None);
}

#[test]
fn keyword_table() {
    assert_eq!(match_identifier(String::from("fn")), TokenKind::KwFunction);
    assert_eq!(match_identifier(String::from("var")), TokenKind::KwVariable);
    assert_eq!(match_identifier(String::from("variable")), TokenKind::Identifier);
    assert_eq!(match_identifier(String::from("f")), TokenKind::Identifier);
    assert_eq!(match_identifier(String::from("FN")), TokenKind::Identifier);
    assert_eq!(match_identifier(String::from("")), TokenKind::Identifier);
}

#[test]
fn token_holds_what_it_was_made_of() {
    let token = Token::new(String::from("12"), TokenKind::NumLiteral);
    assert_eq!(token.raw(), "12");
    assert_eq!(token.kind(), TokenKind::NumLiteral);
}
