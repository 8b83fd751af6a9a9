use lexer::error::push_decimal;
use lexer::{LexError, LexFault, Lexer};

fn error(fault: LexFault, source: &str, line: usize, column: usize) -> LexError {
    LexError { fault, source: String::from(source), line, column }
}

fn decimal(n: usize) -> String {
    let mut out = String::new();
    push_decimal(&mut out, n);
    out
}

#[test]
fn diagnostic_line_of_a_run() {
    let mut lexer = Lexer::new();
    lexer.feed_file((String::from("test.txt"), String::from("123abc")));
    let error = lexer.lex().unwrap_err();
    assert_eq!(
        error.diagnostic(),
        "Lexing error (F: test.txt L: 1, C: 3): illegal character(s) found after number literal."
    );
}

#[test]
fn diagnostic_line_has_the_fixed_form() {
    assert_eq!(
        error(LexFault::UnrecognizedToken, "a.src", 12, 340).diagnostic(),
        "Lexing error (F: a.src L: 12, C: 340): unrecognizeable token."
    );
    assert_eq!(
        error(LexFault::Unterminated, "", 1, 1).diagnostic(),
        "Lexing error (F:  L: 1, C: 1): missing terminating character."
    );
}

#[test]
fn every_fault_has_its_message() {
    assert_eq!(LexFault::UnrecognizedToken.message(), "unrecognizeable token");
    assert_eq!(
        LexFault::AfterNumber.message(),
        "illegal character(s) found after number literal"
    );
    assert_eq!(
        LexFault::AfterString.message(),
        "illegal character(s) found after string literal"
    );
    assert_eq!(
        LexFault::AfterIdentifier.message(),
        "illegal character(s) found after identifier"
    );
    assert_eq!(LexFault::RawTab.message(), "use '\\t' instead of raw character");
    assert_eq!(
        LexFault::RawNewline.message(),
        "missing terminating character (use '\\n' instead of raw character)"
    );
    assert_eq!(LexFault::Unterminated.message(), "missing terminating character");
    assert_eq!(LexFault::MissingEscape.message(), "missing escape sequence");
    assert_eq!(LexFault::UnknownEscape.message(), "unrecognizeable escape sequence");
}

#[test]
fn decimal_of_small_and_large_numbers() {
    assert_eq!(decimal(0), "0");
    assert_eq!(decimal(7), "7");
    assert_eq!(decimal(9), "9");
    assert_eq!(decimal(10), "10");
    assert_eq!(decimal(101), "101");
    assert_eq!(decimal(12345), "12345");
    assert_eq!(decimal(usize::MAX), format!("{}", usize::MAX));
}

#[test]
fn decimal_is_appended() {
    let mut out = String::from("n = ");
    push_decimal(&mut out, 42);
    assert_eq!(out, "n = 42");
}
