use rlox::lox::{decimal_string, Lox, LoxInterpreter};
use rlox::token::{Token, TokenTrait, TokenType};

#[test]
fn decimal_string_exact_values() {
    assert_eq!(decimal_string(0), "0");
    assert_eq!(decimal_string(7), "7");
    assert_eq!(decimal_string(10), "10");
    assert_eq!(decimal_string(120), "120");
    assert_eq!(decimal_string(65535), "65535");
}

#[test]
fn report_formats_diagnostic_and_sets_flag() {
    let mut lox = Lox { had_error: false, diagnostics: Vec::new() };
    lox.report(3, " at end", "boom");
    assert!(lox.had_error);
    assert_eq!(lox.diagnostics, vec!["[line 3] Error at end: boom".to_string()]);
}

#[test]
fn error_uses_empty_location() {
    let mut lox = Lox { had_error: false, diagnostics: Vec::new() };
    lox.error(1, "oops");
    assert_eq!(lox.diagnostics, vec!["[line 1] Error: oops".to_string()]);
}

#[test]
fn error_flag_is_persistent_across_runs() {
    let mut lox = Lox { had_error: false, diagnostics: Vec::new() };
    let _ = lox.run("@");
    assert!(lox.had_error);
    let _ = lox.run("(");
    assert!(lox.had_error, "a clean scan must not clear the flag");
}

#[test]
fn token_get_string_describes_the_token() {
    let token = Token {
        tokentype: TokenType::LeftParen,
        lexeme: String::from("("),
        literal: String::new(),
        line: 1,
    };
    assert_eq!(
        token.get_string(),
        "Token type: \"LeftParen\" // Token Lexeme: \"(\" // Token Literal: \"\""
    );
}

#[test]
fn token_get_string_shows_literal() {
    let token = Token {
        tokentype: TokenType::Number,
        lexeme: String::from("1.5"),
        literal: String::from("1.5"),
        line: 4,
    };
    assert_eq!(
        token.get_string(),
        "Token type: \"Number\" // Token Lexeme: \"1.5\" // Token Literal: \"1.5\""
    );
}
