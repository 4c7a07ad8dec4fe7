//! The token model: one classified lexical unit with its kind, the exact
//! source substring that produced it (lexeme), the extracted literal text,
//! and the 1-based source line it was found on.

use vstd::prelude::*;

verus! {

/// The closed set of token classifications.
#[derive(Clone, Copy, PartialEq, Eq, Structural, Debug)]
pub enum TokenType {
    // Single-character punctuation.
    LeftParen,
    RightParen,
    LeftBrace,
    RightBrace,
    Comma,
    Dot,
    Minus,
    Plus,
    Semicolon,
    Star,
    // One- or two-character operators.
    Bang,
    BangEqual,
    Equal,
    EqualEqual,
    Greater,
    GreaterEqual,
    Less,
    LessEqual,
    Slash,
    // Literals and names.
    Identifier,
    StringText,
    Number,
    // Reserved words.
    And,
    Class,
    Else,
    False,
    Fun,
    For,
    If,
    Nil,
    Or,
    Print,
    Return,
    Super,
    This,
    True,
    Var,
    While,
    // Sentinel appended once at the end of every scan.
    EndOfInput,
}

/// The mathematical value of a token: what the executable `Token` carries,
/// with its strings as character sequences.
pub ghost struct TokenModel {
    pub kind: TokenType,
    pub lexeme: Seq<char>,
    pub literal: Seq<char>,
    pub line: nat,
}

/// One lexical unit produced by the scanner.
pub struct Token {
    pub tokentype: TokenType,
    pub lexeme: String,
    pub literal: String,
    pub line: usize,
}

impl View for Token {
    type V = TokenModel;

    open spec fn view(&self) -> TokenModel {
        TokenModel {
            kind: self.tokentype,
            lexeme: self.lexeme@,
            literal: self.literal@,
            line: self.line as nat,
        }
    }
}

/// The name of a token kind, as it appears in a token's descriptive line.
pub open spec fn kind_name(kind: TokenType) -> Seq<char> {
    match kind {
        TokenType::LeftParen => "LeftParen"@,
        TokenType::RightParen => "RightParen"@,
        TokenType::LeftBrace => "LeftBrace"@,
        TokenType::RightBrace => "RightBrace"@,
        TokenType::Comma => "Comma"@,
        TokenType::Dot => "Dot"@,
        TokenType::Minus => "Minus"@,
        TokenType::Plus => "Plus"@,
        TokenType::Semicolon => "Semicolon"@,
        TokenType::Star => "Star"@,
        TokenType::Bang => "Bang"@,
        TokenType::BangEqual => "BangEqual"@,
        TokenType::Equal => "Equal"@,
        TokenType::EqualEqual => "EqualEqual"@,
        TokenType::Greater => "Greater"@,
        TokenType::GreaterEqual => "GreaterEqual"@,
        TokenType::Less => "Less"@,
        TokenType::LessEqual => "LessEqual"@,
        TokenType::Slash => "Slash"@,
        TokenType::Identifier => "Identifier"@,
        TokenType::StringText => "StringText"@,
        TokenType::Number => "Number"@,
        TokenType::And => "And"@,
        TokenType::Class => "Class"@,
        TokenType::Else => "Else"@,
        TokenType::False => "False"@,
        TokenType::Fun => "Fun"@,
        TokenType::For => "For"@,
        TokenType::If => "If"@,
        TokenType::Nil => "Nil"@,
        TokenType::Or => "Or"@,
        TokenType::Print => "Print"@,
        TokenType::Return => "Return"@,
        TokenType::Super => "Super"@,
        TokenType::This => "This"@,
        TokenType::True => "True"@,
        TokenType::Var => "Var"@,
        TokenType::While => "While"@,
        TokenType::EndOfInput => "EndOfInput"@,
    }
}

/// The descriptive line for a token: its kind's name, its lexeme and its
/// literal, each quoted.
pub open spec fn token_description(t: TokenModel) -> Seq<char> {
    "Token type: \""@ + kind_name(t.kind) + "\" // Token Lexeme: \""@ + t.lexeme
        + "\" // Token Literal: \""@ + t.literal + "\""@
}

pub trait TokenTrait {
    spec fn model(&self) -> TokenModel;

    /// A human-readable one-line description of the token.
    fn get_string(&self) -> (r: String)
        ensures
            r@ == token_description(self.model()),
    ;
}

/// The variant name of a token kind as a string slice.
fn kind_name_str(kind: TokenType) -> (r: &'static str)
    ensures
        r@ == kind_name(kind),
{
    match kind {
        TokenType::LeftParen => "LeftParen",
        TokenType::RightParen => "RightParen",
        TokenType::LeftBrace => "LeftBrace",
        TokenType::RightBrace => "RightBrace",
        TokenType::Comma => "Comma",
        TokenType::Dot => "Dot",
        TokenType::Minus => "Minus",
        TokenType::Plus => "Plus",
        TokenType::Semicolon => "Semicolon",
        TokenType::Star => "Star",
        TokenType::Bang => "Bang",
        TokenType::BangEqual => "BangEqual",
        TokenType::Equal => "Equal",
        TokenType::EqualEqual => "EqualEqual",
        TokenType::Greater => "Greater",
        TokenType::GreaterEqual => "GreaterEqual",
        TokenType::Less => "Less",
        TokenType::LessEqual => "LessEqual",
        TokenType::Slash => "Slash",
        TokenType::Identifier => "Identifier",
        TokenType::StringText => "StringText",
        TokenType::Number => "Number",
        TokenType::And => "And",
        TokenType::Class => "Class",
        TokenType::Else => "Else",
        TokenType::False => "False",
        TokenType::Fun => "Fun",
        TokenType::For => "For",
        TokenType::If => "If",
        TokenType::Nil => "Nil",
        TokenType::Or => "Or",
        TokenType::Print => "Print",
        TokenType::Return => "Return",
        TokenType::Super => "Super",
        TokenType::This => "This",
        TokenType::True => "True",
        TokenType::Var => "Var",
        TokenType::While => "While",
        TokenType::EndOfInput => "EndOfInput",
    }
}

impl TokenTrait for Token {
    open spec fn model(&self) -> TokenModel {
        self@
    }

    fn get_string(&self) -> (r: String)
        ensures
            r@ == token_description(self@),
    {
        let mut r = String::from_str("Token type: \"");
        r.append(kind_name_str(self.tokentype));
        r.append("\" // Token Lexeme: \"");
        r.append(self.lexeme.as_str());
        r.append("\" // Token Literal: \"");
        r.append(self.literal.as_str());
        r.append("\"");
        r
    }
}

} // verus!
