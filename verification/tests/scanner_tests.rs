use rlox::lox::{Lox, LoxInterpreter};
use rlox::scanner::{create_scanner, ScannerActions};
use rlox::token::{Token, TokenType};

fn fresh_lox() -> Lox {
    Lox { had_error: false, diagnostics: Vec::new() }
}

fn scan(source: &str) -> (Vec<Token>, Lox) {
    let mut lox = fresh_lox();
    let tokens = lox.run(source);
    (tokens, lox)
}

fn kinds(tokens: &[Token]) -> Vec<TokenType> {
    tokens.iter().map(|t| t.tokentype).collect()
}

#[test]
fn single_left_paren() {
    let (tokens, lox) = scan("(");
    assert_eq!(kinds(&tokens), vec![TokenType::LeftParen, TokenType::EndOfInput]);
    assert_eq!(tokens[0].lexeme, "(");
    assert_eq!(tokens[0].literal, "");
    assert_eq!(tokens[0].line, 1);
    assert!(!lox.had_error);
    assert!(lox.diagnostics.is_empty());
}

#[test]
fn whitespace_produces_no_token() {
    let (tokens, _) = scan("( )");
    assert_eq!(
        kinds(&tokens),
        vec![TokenType::LeftParen, TokenType::RightParen, TokenType::EndOfInput]
    );
    let (tokens, _) = scan(" \r\t");
    assert_eq!(kinds(&tokens), vec![TokenType::EndOfInput]);
}

#[test]
fn comment_is_discarded_and_newline_counts() {
    let (tokens, lox) = scan("// c\n(");
    assert_eq!(kinds(&tokens), vec![TokenType::LeftParen, TokenType::EndOfInput]);
    assert_eq!(tokens[0].line, 2);
    assert_eq!(tokens[1].line, 2);
    assert!(!lox.had_error);
}

#[test]
fn comment_to_end_of_input() {
    let (tokens, lox) = scan("- // trailing");
    assert_eq!(kinds(&tokens), vec![TokenType::Minus, TokenType::EndOfInput]);
    assert!(!lox.had_error);
}

#[test]
fn string_literal_extracted() {
    let (tokens, lox) = scan("\"abc\"");
    assert_eq!(kinds(&tokens), vec![TokenType::StringText, TokenType::EndOfInput]);
    assert_eq!(tokens[0].literal, "abc");
    assert_eq!(tokens[0].lexeme, "\"abc\"");
    assert!(!lox.had_error);
}

#[test]
fn string_with_embedded_newline() {
    let (tokens, _) = scan("\"a\nb\"");
    assert_eq!(kinds(&tokens), vec![TokenType::StringText, TokenType::EndOfInput]);
    assert_eq!(tokens[0].literal, "a\nb");
    assert_eq!(tokens[0].line, 2);
}

#[test]
fn number_with_fraction() {
    let (tokens, _) = scan("123.45");
    assert_eq!(kinds(&tokens), vec![TokenType::Number, TokenType::EndOfInput]);
    assert_eq!(tokens[0].literal, "123.45");
    assert_eq!(tokens[0].lexeme, "123.45");
}

#[test]
fn trailing_dot_is_not_consumed() {
    let (tokens, _) = scan("123.");
    assert_eq!(kinds(&tokens), vec![TokenType::Number, TokenType::Dot, TokenType::EndOfInput]);
    assert_eq!(tokens[0].literal, "123");
    assert_eq!(tokens[1].lexeme, ".");
}

#[test]
fn keyword_is_not_identifier() {
    let (tokens, _) = scan("and");
    assert_eq!(kinds(&tokens), vec![TokenType::And, TokenType::EndOfInput]);
    assert_eq!(tokens[0].lexeme, "and");
    assert_eq!(tokens[0].literal, "");
}

#[test]
fn keyword_prefix_is_identifier() {
    let (tokens, _) = scan("andy");
    assert_eq!(kinds(&tokens), vec![TokenType::Identifier, TokenType::EndOfInput]);
    assert_eq!(tokens[0].lexeme, "andy");
}

#[test]
fn keyword_matching_is_case_sensitive() {
    let (tokens, _) = scan("And");
    assert_eq!(kinds(&tokens), vec![TokenType::Identifier, TokenType::EndOfInput]);
}

#[test]
fn all_sixteen_keywords() {
    let cases = [
        ("and", TokenType::And),
        ("class", TokenType::Class),
        ("else", TokenType::Else),
        ("false", TokenType::False),
        ("for", TokenType::For),
        ("fun", TokenType::Fun),
        ("if", TokenType::If),
        ("nil", TokenType::Nil),
        ("or", TokenType::Or),
        ("print", TokenType::Print),
        ("return", TokenType::Return),
        ("super", TokenType::Super),
        ("this", TokenType::This),
        ("true", TokenType::True),
        ("var", TokenType::Var),
        ("while", TokenType::While),
    ];
    for (text, kind) in cases {
        let (tokens, _) = scan(text);
        assert_eq!(kinds(&tokens), vec![kind, TokenType::EndOfInput], "keyword {}", text);
    }
}

#[test]
fn bang_equal_is_one_token() {
    let (tokens, _) = scan("!=");
    assert_eq!(kinds(&tokens), vec![TokenType::BangEqual, TokenType::EndOfInput]);
    assert_eq!(tokens[0].lexeme, "!=");
}

#[test]
fn bang_then_identifier() {
    let (tokens, _) = scan("!x");
    assert_eq!(
        kinds(&tokens),
        vec![TokenType::Bang, TokenType::Identifier, TokenType::EndOfInput]
    );
    assert_eq!(tokens[0].lexeme, "!");
    assert_eq!(tokens[1].lexeme, "x");
}

#[test]
fn one_and_two_character_operators() {
    let (tokens, _) = scan("! != = == < <= > >= /");
    assert_eq!(
        kinds(&tokens),
        vec![
            TokenType::Bang,
            TokenType::BangEqual,
            TokenType::Equal,
            TokenType::EqualEqual,
            TokenType::Less,
            TokenType::LessEqual,
            TokenType::Greater,
            TokenType::GreaterEqual,
            TokenType::Slash,
            TokenType::EndOfInput,
        ]
    );
}

#[test]
fn all_single_character_tokens() {
    let (tokens, _) = scan("(){},.-+;*");
    assert_eq!(
        kinds(&tokens),
        vec![
            TokenType::LeftParen,
            TokenType::RightParen,
            TokenType::LeftBrace,
            TokenType::RightBrace,
            TokenType::Comma,
            TokenType::Dot,
            TokenType::Minus,
            TokenType::Plus,
            TokenType::Semicolon,
            TokenType::Star,
            TokenType::EndOfInput,
        ]
    );
}

#[test]
fn unterminated_string_reports_once() {
    let (tokens, lox) = scan("\"abc");
    assert_eq!(kinds(&tokens), vec![TokenType::EndOfInput]);
    assert!(lox.had_error);
    assert_eq!(lox.diagnostics.len(), 1);
    assert_eq!(lox.diagnostics[0], "[line 1] Error: Unterminated string.");
}

#[test]
fn unexpected_character_reports_and_continues() {
    let (tokens, lox) = scan("@(");
    assert_eq!(kinds(&tokens), vec![TokenType::LeftParen, TokenType::EndOfInput]);
    assert!(lox.had_error);
    assert_eq!(lox.diagnostics.len(), 1);
    assert_eq!(lox.diagnostics[0], "[line 1] Error: Unexpected character");
}

#[test]
fn report_line_number_is_formatted_in_decimal() {
    let mut source = String::new();
    for _ in 0..11 {
        source.push('\n');
    }
    source.push('@');
    let (tokens, lox) = scan(&source);
    assert_eq!(kinds(&tokens), vec![TokenType::EndOfInput]);
    assert_eq!(lox.diagnostics, vec!["[line 12] Error: Unexpected character".to_string()]);
}

#[test]
fn multiple_independent_errors_in_one_pass() {
    let (tokens, lox) = scan("@ #");
    assert_eq!(kinds(&tokens), vec![TokenType::EndOfInput]);
    assert_eq!(lox.diagnostics.len(), 2);
    assert!(lox.had_error);
}

#[test]
fn every_scan_ends_in_exactly_one_sentinel() {
    let samples =
        ["", "(", "( )", "// c\n(", "\"abc\"", "\"abc", "123.", "and andy", "@", "var x = 1;"];
    for source in samples {
        let (tokens, _) = scan(source);
        assert!(!tokens.is_empty(), "scan of {:?}", source);
        assert_eq!(tokens.last().unwrap().tokentype, TokenType::EndOfInput);
        let sentinels =
            tokens.iter().filter(|t| t.tokentype == TokenType::EndOfInput).count();
        assert_eq!(sentinels, 1, "scan of {:?}", source);
    }
}

#[test]
fn scanning_twice_yields_identical_sequences() {
    let samples = ["", "var x = 1.5; // set\nprint \"x\";", "\"open", "@!<=and"];
    for source in samples {
        let (first, _) = scan(source);
        let (second, _) = scan(source);
        assert_eq!(first.len(), second.len(), "scan of {:?}", source);
        for (a, b) in first.iter().zip(second.iter()) {
            assert_eq!(a.tokentype, b.tokentype);
            assert_eq!(a.lexeme, b.lexeme);
            assert_eq!(a.literal, b.literal);
            assert_eq!(a.line, b.line);
        }
    }
}

#[test]
fn empty_source_yields_only_sentinel() {
    let (tokens, lox) = scan("");
    assert_eq!(kinds(&tokens), vec![TokenType::EndOfInput]);
    assert_eq!(tokens[0].lexeme, "");
    assert_eq!(tokens[0].line, 1);
    assert!(!lox.had_error);
}

#[test]
fn scanner_built_directly_matches_run() {
    let mut lox = fresh_lox();
    let mut scanner = create_scanner(String::from("(+)"));
    let tokens = scanner.scan_tokens(&mut lox);
    assert_eq!(
        kinds(&tokens),
        vec![
            TokenType::LeftParen,
            TokenType::Plus,
            TokenType::RightParen,
            TokenType::EndOfInput,
        ]
    );
    assert!(!lox.had_error);
}

#[test]
fn identifier_with_digits_and_underscore() {
    let (tokens, _) = scan("_x1 y_2");
    assert_eq!(
        kinds(&tokens),
        vec![TokenType::Identifier, TokenType::Identifier, TokenType::EndOfInput]
    );
    assert_eq!(tokens[0].lexeme, "_x1");
    assert_eq!(tokens[1].lexeme, "y_2");
}

#[test]
fn nul_byte_is_an_unexpected_character() {
    let (tokens, lox) = scan("\0(");
    assert_eq!(kinds(&tokens), vec![TokenType::LeftParen, TokenType::EndOfInput]);
    assert!(lox.had_error);
    assert_eq!(lox.diagnostics.len(), 1);
}

#[test]
fn slash_alone_is_divide() {
    let (tokens, _) = scan("1/2");
    assert_eq!(
        kinds(&tokens),
        vec![TokenType::Number, TokenType::Slash, TokenType::Number, TokenType::EndOfInput]
    );
    assert_eq!(tokens[1].lexeme, "/");
}

#[test]
fn statement_mixes_all_classes() {
    let (tokens, lox) = scan("var half = 1.5; // note\nprint \"ok\" != done");
    assert_eq!(
        kinds(&tokens),
        vec![
            TokenType::Var,
            TokenType::Identifier,
            TokenType::Equal,
            TokenType::Number,
            TokenType::Semicolon,
            TokenType::Print,
            TokenType::StringText,
            TokenType::BangEqual,
            TokenType::Identifier,
            TokenType::EndOfInput,
        ]
    );
    assert_eq!(tokens[3].literal, "1.5");
    assert_eq!(tokens[6].literal, "ok");
    assert_eq!(tokens[6].line, 2);
    assert!(!lox.had_error);
}
