use lexer::{LexFault, Lexer, Token, TokenKind};

fn token(raw: &str, kind: TokenKind) -> Token {
    Token::new(String::from(raw), kind)
}

fn tokens_of(text: &str) -> Vec<Token> {
    let mut lexer = Lexer::new();
    lexer.feed_file((String::from("input"), String::from(text)));
    lexer.lex().unwrap();
    lexer.tokens
}

#[test]
fn feed_appends_to_the_current_source() {
    let mut lexer = Lexer::new();
    lexer.feed_file((String::from("input"), String::from("12")));
    lexer.feed(String::from("3 a"));
    lexer.feed(String::from("b"));
    assert_eq!(lexer.lex(), Ok(()));
    assert_eq!(
        lexer.tokens,
        vec![token("123", TokenKind::NumLiteral), token("ab", TokenKind::Identifier)]
    );
}

#[test]
fn feed_goes_to_the_first_source_not_read() {
    let mut lexer = Lexer::new();
    lexer.feed_file((String::from("A"), String::from("1")));
    lexer.feed_file((String::from("B"), String::from("x")));
    lexer.feed(String::from("2"));
    assert_eq!(lexer.lex(), Ok(()));
    assert_eq!(
        lexer.tokens,
        vec![token("12", TokenKind::NumLiteral), token("x", TokenKind::Identifier)]
    );

    lexer.feed_file((String::from("C"), String::from("y")));
    lexer.feed(String::from("z"));
    assert_eq!(lexer.lex(), Ok(()));
    assert_eq!(lexer.tokens.len(), 3);
    assert_eq!(lexer.tokens[2], token("yz", TokenKind::Identifier));
}

#[test]
fn empty_sources_give_no_token() {
    let mut lexer = Lexer::new();
    lexer.feed_file((String::from("A"), String::new()));
    lexer.feed_file((String::from("B"), String::from("1")));
    lexer.feed_file((String::from("C"), String::new()));
    assert_eq!(lexer.lex(), Ok(()));
    assert_eq!(lexer.tokens, vec![token("1", TokenKind::NumLiteral)]);
    assert_eq!(lexer.file_index(), 3);
    assert_eq!(lexer.index(), 0);
}

#[test]
fn names_may_repeat() {
    let mut lexer = Lexer::new();
    lexer.feed_file((String::from("A"), String::from("1")));
    lexer.feed_file((String::from("A"), String::from("2")));
    assert_eq!(lexer.lex(), Ok(()));
    assert_eq!(lexer.tokens.len(), 2);
}

#[test]
fn sources_do_not_join_into_one_lexeme() {
    let mut lexer = Lexer::new();
    lexer.feed_file((String::from("A"), String::from("12")));
    lexer.feed_file((String::from("B"), String::from("34")));
    assert_eq!(lexer.lex(), Ok(()));
    assert_eq!(
        lexer.tokens,
        vec![token("12", TokenKind::NumLiteral), token("34", TokenKind::NumLiteral)]
    );

    let mut lexer = Lexer::new();
    lexer.feed_file((String::from("A"), String::from("12")));
    lexer.feed_file((String::from("B"), String::from("ab")));
    assert_eq!(lexer.lex(), Ok(()));
    assert_eq!(lexer.tokens.len(), 2);

    let mut lexer = Lexer::new();
    lexer.feed_file((String::from("A"), String::from("\"ab")));
    lexer.feed_file((String::from("B"), String::from("cd\"")));
    assert_eq!(lexer.lex().unwrap_err().fault, LexFault::Unterminated);
}

#[test]
fn a_run_gives_the_tokens_of_its_sources_in_order() {
    let texts = ["var x", "", "\"s\" 1\n", " \t", "fn f + 2"];
    let mut lexer = Lexer::new();
    let mut expected = Vec::new();
    for (i, text) in texts.iter().enumerate() {
        lexer.feed_file((format!("source {}", i), String::from(*text)));
        expected.extend(tokens_of(text));
    }
    assert_eq!(lexer.lex(), Ok(()));
    assert_eq!(lexer.tokens, expected);
    assert_eq!(expected.len(), 8);
}

#[test]
fn lex_reads_each_source_once() {
    let mut lexer = Lexer::new();
    lexer.feed_file((String::from("A"), String::from("1 2")));
    assert_eq!(lexer.lex(), Ok(()));
    assert_eq!(lexer.tokens.len(), 2);
    assert_eq!(lexer.lex(), Ok(()));
    assert_eq!(lexer.tokens.len(), 2);
    assert_eq!(lexer.file_index(), 1);
    assert_eq!(lexer.index(), 3);

    lexer.feed_file((String::from("B"), String::from("3")));
    assert_eq!(lexer.lex(), Ok(()));
    assert_eq!(
        lexer.tokens,
        vec![
            token("1", TokenKind::NumLiteral),
            token("2", TokenKind::NumLiteral),
            token("3", TokenKind::NumLiteral),
        ]
    );
    assert_eq!(lexer.file_index(), 2);
    assert_eq!(lexer.index(), 1);
}

#[test]
fn cursor_after_a_run() {
    let mut lexer = Lexer::new();
    lexer.feed_file((String::from("A"), String::from("ab\ncd\n")));
    assert_eq!(lexer.lex(), Ok(()));
    assert_eq!((lexer.line(), lexer.position()), (3, 1));
    assert_eq!((lexer.file_index(), lexer.index()), (1, 6));

    lexer.feed_file((String::from("B"), String::from("x y")));
    assert_eq!(lexer.lex(), Ok(()));
    assert_eq!((lexer.line(), lexer.position()), (3, 4));
}

#[test]
fn every_token_is_proper() {
    let tokens = tokens_of("var x1 \"\" \"a\\\\\" 007 + - / * fn _ f_1\n\t12\n");
    assert_eq!(tokens.len(), 13);
    for token in tokens.iter() {
        assert_ne!(token.kind(), TokenKind::Dummy);
        if token.kind() != TokenKind::StrLiteral {
            assert!(!token.raw().is_empty());
        }
        if token.kind() == TokenKind::NumLiteral {
            assert!(token.raw().chars().all(|c| c.is_ascii_digit()));
        }
    }
    assert_eq!(tokens[2], token("", TokenKind::StrLiteral));
    assert_eq!(tokens[3], token("a\\", TokenKind::StrLiteral));
}

#[test]
fn can_lex_with_ordinary_sources() {
    let mut lexer = Lexer::new();
    lexer.feed_file((String::from("A"), String::from("1 2 3")));
    assert!(lexer.can_lex());
    assert_eq!(lexer.lex(), Ok(()));
    assert!(lexer.can_lex());
}

#[test]
fn two_runs_give_what_one_run_gives() {
    let texts = ["var x\n", "1 +\n\n", "\"s\"", "fn f\n2"];

    let mut once = Lexer::new();
    for text in texts.iter() {
        once.feed_file((String::from("source"), String::from(*text)));
    }
    assert_eq!(once.lex(), Ok(()));

    let mut twice = Lexer::new();
    twice.feed_file((String::from("source"), String::from(texts[0])));
    twice.feed_file((String::from("source"), String::from(texts[1])));
    assert_eq!(twice.lex(), Ok(()));
    assert_eq!(twice.tokens.len(), 4);
    twice.feed_file((String::from("source"), String::from(texts[2])));
    twice.feed_file((String::from("source"), String::from(texts[3])));
    assert_eq!(twice.lex(), Ok(()));

    assert_eq!(twice.tokens, once.tokens);
    assert_eq!(once.tokens.len(), 8);
    assert_eq!((twice.line(), twice.position()), (once.line(), once.position()));
    assert_eq!((once.line(), once.position()), (5, 2));
}
