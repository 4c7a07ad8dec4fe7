use rlox::lox::{Lox, LoxInterpreter};
use rlox::prompt::normalize_prompt_line;
use rlox::token::TokenType;

#[test]
fn prompt_line_is_trimmed_and_collapsed() {
    assert_eq!(normalize_prompt_line("  a \t b  "), "a b");
    assert_eq!(normalize_prompt_line("print\u{a0}x"), "print x");
    assert_eq!(normalize_prompt_line("no change"), "no change");
    assert_eq!(normalize_prompt_line(""), "");
}

#[test]
fn normalized_prompt_line_scans_cleanly() {
    let mut lox = Lox { had_error: false, diagnostics: Vec::new() };
    let line = normalize_prompt_line("  var \t x\n");
    let tokens = lox.run(&line);
    let kinds: Vec<TokenType> = tokens.iter().map(|t| t.tokentype).collect();
    assert_eq!(kinds, vec![TokenType::Var, TokenType::Identifier, TokenType::EndOfInput]);
    assert!(!lox.had_error);
}
