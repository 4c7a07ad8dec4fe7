//! The mathematical model of one scan: a recursive function from the source
//! character sequence to the tokens the scanner emits, the diagnostics it
//! reports, and the line its cursor ends on. The executable scanner is
//! verified to produce exactly this model's outcome.

use vstd::prelude::*;

use crate::token::{TokenModel, TokenType};

verus! {

/// One diagnostic report handed to the error sink: the line it concerns and
/// its message text.
pub ghost struct ReportModel {
    pub line: nat,
    pub message: Seq<char>,
}

/// Everything one scan produces: the ordered token sequence (ending in the
/// sentinel), the ordered diagnostic reports, and the line the cursor ends on.
pub ghost struct ScanModel {
    pub tokens: Seq<TokenModel>,
    pub reports: Seq<ReportModel>,
    pub end_line: nat,
}

/// An ASCII decimal digit.
pub open spec fn is_digit_char(c: char) -> bool {
    '0' as u32 <= c as u32 && c as u32 <= '9' as u32
}

/// An ASCII letter or the underscore: what may begin an identifier.
pub open spec fn is_alpha_char(c: char) -> bool {
    ('a' as u32 <= c as u32 && c as u32 <= 'z' as u32) || ('A' as u32 <= c as u32 && c as u32
        <= 'Z' as u32) || c == '_'
}

/// What may continue an identifier.
pub open spec fn is_alpha_numeric_char(c: char) -> bool {
    is_alpha_char(c) || is_digit_char(c)
}

/// The first position at or after `i` that does not hold a decimal digit
/// (or the end of the source).
pub open spec fn digits_end(src: Seq<char>, i: int) -> int
    decreases src.len() - i,
{
    if i < 0 || i >= src.len() {
        i
    } else if is_digit_char(src[i]) {
        digits_end(src, i + 1)
    } else {
        i
    }
}

/// The first position at or after `i` that does not continue an identifier.
pub open spec fn identifier_end(src: Seq<char>, i: int) -> int
    decreases src.len() - i,
{
    if i < 0 || i >= src.len() {
        i
    } else if is_alpha_numeric_char(src[i]) {
        identifier_end(src, i + 1)
    } else {
        i
    }
}

/// The position of the closing quote of a string whose body starts at `i`,
/// or the end of the source if no closing quote follows.
pub open spec fn string_body_end(src: Seq<char>, i: int) -> int
    decreases src.len() - i,
{
    if i < 0 || i >= src.len() {
        i
    } else if src[i] == '"' {
        i
    } else {
        string_body_end(src, i + 1)
    }
}

/// The position of the newline that ends a line comment whose body starts at
/// `i`, or the end of the source. The newline itself is not part of the
/// comment.
pub open spec fn line_comment_end(src: Seq<char>, i: int) -> int
    decreases src.len() - i,
{
    if i < 0 || i >= src.len() {
        i
    } else if src[i] == '\n' {
        i
    } else {
        line_comment_end(src, i + 1)
    }
}

/// How many newline characters `src` holds in positions `a <= p < b`.
pub open spec fn newline_count(src: Seq<char>, a: int, b: int) -> nat
    decreases b - a,
{
    if a >= b {
        0
    } else {
        newline_count(src, a, b - 1) + (if src[b - 1] == '\n' {
            1nat
        } else {
            0nat
        })
    }
}

pub proof fn lemma_digits_end_bounds(src: Seq<char>, i: int)
    requires
        0 <= i <= src.len(),
    ensures
        i <= digits_end(src, i) <= src.len(),
    decreases src.len() - i,
{
    if i < src.len() && is_digit_char(src[i]) {
        lemma_digits_end_bounds(src, i + 1);
    }
}

pub proof fn lemma_identifier_end_bounds(src: Seq<char>, i: int)
    requires
        0 <= i <= src.len(),
    ensures
        i <= identifier_end(src, i) <= src.len(),
    decreases src.len() - i,
{
    if i < src.len() && is_alpha_numeric_char(src[i]) {
        lemma_identifier_end_bounds(src, i + 1);
    }
}

pub proof fn lemma_string_body_end_bounds(src: Seq<char>, i: int)
    requires
        0 <= i <= src.len(),
    ensures
        i <= string_body_end(src, i) <= src.len(),
    decreases src.len() - i,
{
    if i < src.len() && src[i] != '"' {
        lemma_string_body_end_bounds(src, i + 1);
    }
}

pub proof fn lemma_line_comment_end_bounds(src: Seq<char>, i: int)
    requires
        0 <= i <= src.len(),
    ensures
        i <= line_comment_end(src, i) <= src.len(),
    decreases src.len() - i,
{
    if i < src.len() && src[i] != '\n' {
        lemma_line_comment_end_bounds(src, i + 1);
    }
}

/// The kind of the single-character tokens that need no lookahead.
pub open spec fn simple_kind(c: char) -> Option<TokenType> {
    if c == '(' {
        Some(TokenType::LeftParen)
    } else if c == ')' {
        Some(TokenType::RightParen)
    } else if c == '{' {
        Some(TokenType::LeftBrace)
    } else if c == '}' {
        Some(TokenType::RightBrace)
    } else if c == ',' {
        Some(TokenType::Comma)
    } else if c == '.' {
        Some(TokenType::Dot)
    } else if c == '-' {
        Some(TokenType::Minus)
    } else if c == '+' {
        Some(TokenType::Plus)
    } else if c == ';' {
        Some(TokenType::Semicolon)
    } else if c == '*' {
        Some(TokenType::Star)
    } else {
        None
    }
}

/// The two-character kind chosen when `c` is followed by `=`, and the
/// one-character kind chosen otherwise.
pub open spec fn equals_kinds(c: char) -> Option<(TokenType, TokenType)> {
    if c == '!' {
        Some((TokenType::BangEqual, TokenType::Bang))
    } else if c == '=' {
        Some((TokenType::EqualEqual, TokenType::Equal))
    } else if c == '<' {
        Some((TokenType::LessEqual, TokenType::Less))
    } else if c == '>' {
        Some((TokenType::GreaterEqual, TokenType::Greater))
    } else {
        None
    }
}

/// The keyword table: reserved identifier text and the kind it is reserved
/// for, in the order the table is built.
pub open spec fn keyword_entries() -> Seq<(Seq<char>, TokenType)> {
    seq![
        ("and"@, TokenType::And),
        ("class"@, TokenType::Class),
        ("else"@, TokenType::Else),
        ("false"@, TokenType::False),
        ("for"@, TokenType::For),
        ("fun"@, TokenType::Fun),
        ("if"@, TokenType::If),
        ("nil"@, TokenType::Nil),
        ("or"@, TokenType::Or),
        ("print"@, TokenType::Print),
        ("return"@, TokenType::Return),
        ("super"@, TokenType::Super),
        ("this"@, TokenType::This),
        ("true"@, TokenType::True),
        ("var"@, TokenType::Var),
        ("while"@, TokenType::While),
    ]
}

/// Lookup in an association list: the kind of the first entry whose text
/// equals `text`, if any.
pub open spec fn table_lookup(entries: Seq<(Seq<char>, TokenType)>, text: Seq<char>) -> Option<
    TokenType,
>
    decreases entries.len(),
{
    if entries.len() == 0 {
        None
    } else if entries[0].0 == text {
        Some(entries[0].1)
    } else {
        table_lookup(entries.drop_first(), text)
    }
}

/// The kind of an identifier token: its keyword's kind if its text is
/// reserved, else `Identifier`.
pub open spec fn identifier_kind(text: Seq<char>) -> TokenType {
    match table_lookup(keyword_entries(), text) {
        Some(kind) => kind,
        None => TokenType::Identifier,
    }
}

/// The message reported for a character outside the grammar.
pub open spec fn unexpected_character_message() -> Seq<char> {
    "Unexpected character"@
}

/// The message reported for a string literal with no closing quote.
pub open spec fn unterminated_string_message() -> Seq<char> {
    "Unterminated string."@
}

/// A token with no extracted literal content.
pub open spec fn plain_token(kind: TokenType, lexeme: Seq<char>, line: nat) -> TokenModel {
    TokenModel { kind, lexeme, literal: Seq::empty(), line }
}

/// What one dispatch step does, the cursor standing on a character at
/// position `i` (which must be in range) on line `line`: where the cursor
/// and the line counter move, the token it emits, and the report it makes,
/// if any. A step emits at most one token or one report, never both.
pub ghost struct StepModel {
    pub next_pos: int,
    pub next_line: nat,
    pub token: Option<TokenModel>,
    pub report: Option<ReportModel>,
}

/// One step of the scanner's dispatch on the character at position `i`.
pub open spec fn scan_step(src: Seq<char>, i: int, line: nat) -> StepModel {
    let c = src[i];
    if simple_kind(c) is Some {
        StepModel {
            next_pos: i + 1,
            next_line: line,
            token: Some(plain_token(simple_kind(c)->Some_0, src.subrange(i, i + 1), line)),
            report: None,
        }
    } else if equals_kinds(c) is Some {
        let two = i + 1 < src.len() && src[i + 1] == '=';
        let kind = if two {
            equals_kinds(c)->Some_0.0
        } else {
            equals_kinds(c)->Some_0.1
        };
        let width = if two {
            2int
        } else {
            1int
        };
        StepModel {
            next_pos: i + width,
            next_line: line,
            token: Some(plain_token(kind, src.subrange(i, i + width), line)),
            report: None,
        }
    } else if c == '/' {
        if i + 1 < src.len() && src[i + 1] == '/' {
            StepModel {
                next_pos: line_comment_end(src, i + 2),
                next_line: line,
                token: None,
                report: None,
            }
        } else {
            StepModel {
                next_pos: i + 1,
                next_line: line,
                token: Some(plain_token(TokenType::Slash, src.subrange(i, i + 1), line)),
                report: None,
            }
        }
    } else if c == ' ' || c == '\r' || c == '\t' {
        StepModel { next_pos: i + 1, next_line: line, token: None, report: None }
    } else if c == '\n' {
        StepModel { next_pos: i + 1, next_line: line + 1, token: None, report: None }
    } else if c == '"' {
        let e = string_body_end(src, i + 1);
        let nl = line + newline_count(src, i + 1, e);
        if e >= src.len() {
            StepModel {
                next_pos: e,
                next_line: nl,
                token: None,
                report: Some(ReportModel { line: nl, message: unterminated_string_message() }),
            }
        } else {
            StepModel {
                next_pos: e + 1,
                next_line: nl,
                token: Some(
                    TokenModel {
                        kind: TokenType::StringText,
                        lexeme: src.subrange(i, e + 1),
                        literal: src.subrange(i + 1, e),
                        line: nl,
                    },
                ),
                report: None,
            }
        }
    } else if is_digit_char(c) {
        let d = digits_end(src, i + 1);
        let e = if d < src.len() && src[d] == '.' && d + 1 < src.len() && is_digit_char(
            src[d + 1],
        ) {
            digits_end(src, d + 1)
        } else {
            d
        };
        StepModel {
            next_pos: e,
            next_line: line,
            token: Some(
                TokenModel {
                    kind: TokenType::Number,
                    lexeme: src.subrange(i, e),
                    literal: src.subrange(i, e),
                    line,
                },
            ),
            report: None,
        }
    } else if is_alpha_char(c) {
        let e = identifier_end(src, i + 1);
        StepModel {
            next_pos: e,
            next_line: line,
            token: Some(
                plain_token(identifier_kind(src.subrange(i, e)), src.subrange(i, e), line),
            ),
            report: None,
        }
    } else {
        StepModel {
            next_pos: i + 1,
            next_line: line,
            token: None,
            report: Some(ReportModel { line, message: unexpected_character_message() }),
        }
    }
}

/// Every dispatch step consumes at least the character it stands on and
/// never moves the cursor past the end of the source.
pub proof fn lemma_scan_step_bounds(src: Seq<char>, i: int, line: nat)
    requires
        0 <= i < src.len(),
    ensures
        i < scan_step(src, i, line).next_pos <= src.len(),
{
    lemma_digits_end_bounds(src, i + 1);
    let d = digits_end(src, i + 1);
    if d < src.len() {
        lemma_digits_end_bounds(src, d + 1);
    }
    lemma_identifier_end_bounds(src, i + 1);
    lemma_string_body_end_bounds(src, i + 1);
    if i + 2 <= src.len() {
        lemma_line_comment_end_bounds(src, i + 2);
    }
}

/// The outcome of scanning `src` from position `i` onward, the cursor
/// standing on line `line`: one step of the scanner's dispatch, then the
/// rest. At the end of the input, exactly the end-of-input sentinel remains.
pub open spec fn scan_from(src: Seq<char>, i: int, line: nat) -> ScanModel
    decreases src.len() - i,
    when 0 <= i <= src.len()
    via scan_from_decreases
{
    if i >= src.len() {
        ScanModel {
            tokens: seq![
                TokenModel {
                    kind: TokenType::EndOfInput,
                    lexeme: Seq::empty(),
                    literal: Seq::empty(),
                    line,
                },
            ],
            reports: Seq::empty(),
            end_line: line,
        }
    } else {
        let st = scan_step(src, i, line);
        let rest = scan_from(src, st.next_pos, st.next_line);
        ScanModel {
            tokens: (match st.token {
                Some(t) => seq![t],
                None => Seq::empty(),
            }) + rest.tokens,
            reports: (match st.report {
                Some(r) => seq![r],
                None => Seq::empty(),
            }) + rest.reports,
            end_line: rest.end_line,
        }
    }
}

#[via_fn]
proof fn scan_from_decreases(src: Seq<char>, i: int, line: nat) {
    if 0 <= i < src.len() {
        lemma_scan_step_bounds(src, i, line);
    }
}

/// The complete outcome of scanning `src`: the scanner starts at the first
/// character, on line 1.
pub open spec fn scan_model(src: Seq<char>) -> ScanModel {
    scan_from(src, 0, 1)
}

proof fn lemma_table_lookup_avoids(
    entries: Seq<(Seq<char>, TokenType)>,
    text: Seq<char>,
    k: TokenType,
)
    requires
        forall|j: int| 0 <= j < entries.len() ==> (#[trigger] entries[j]).1 != k,
    ensures
        table_lookup(entries, text) != Some(k),
    decreases entries.len(),
{
    if entries.len() == 0 {
    } else if entries[0].0 == text {
    } else {
        assert(forall|j: int|
            0 <= j < entries.drop_first().len() ==> (#[trigger] entries.drop_first()[j])
                == entries[j + 1]);
        lemma_table_lookup_avoids(entries.drop_first(), text, k);
    }
}

proof fn lemma_identifier_kind_not_sentinel(text: Seq<char>)
    ensures
        identifier_kind(text) != TokenType::EndOfInput,
{
    assert(forall|j: int|
        0 <= j < keyword_entries().len() ==> (#[trigger] keyword_entries()[j]).1
            != TokenType::EndOfInput);
    lemma_table_lookup_avoids(keyword_entries(), text, TokenType::EndOfInput);
}

proof fn lemma_scan_from_sentinel(src: Seq<char>, i: int, line: nat)
    requires
        0 <= i <= src.len(),
    ensures
        ({
            let m = scan_from(src, i, line);
            &&& m.tokens.len() >= 1
            &&& m.tokens.last().kind == TokenType::EndOfInput
            &&& m.tokens.last().line == m.end_line
            &&& forall|j: int|
                0 <= j < m.tokens.len() - 1 ==> (#[trigger] m.tokens[j]).kind
                    != TokenType::EndOfInput
        }),
    decreases src.len() - i,
{
    if i < src.len() {
        lemma_scan_step_bounds(src, i, line);
        if is_alpha_char(src[i]) {
            lemma_identifier_kind_not_sentinel(src.subrange(i, identifier_end(src, i + 1)));
        }
        let st = scan_step(src, i, line);
        lemma_scan_from_sentinel(src, st.next_pos, st.next_line);
    }
}

/// Every scan's token sequence ends in exactly one end-of-input sentinel:
/// it is non-empty, its last token is `EndOfInput` and carries the line the
/// scan ended on, and no other token has that kind.
pub proof fn lemma_scan_ends_in_one_sentinel(src: Seq<char>)
    ensures
        scan_model(src).tokens.len() >= 1,
        scan_model(src).tokens.last().kind == TokenType::EndOfInput,
        scan_model(src).tokens.last().line == scan_model(src).end_line,
        forall|j: int|
            0 <= j < scan_model(src).tokens.len() - 1 ==> (#[trigger] scan_model(
                src,
            ).tokens[j]).kind != TokenType::EndOfInput,
{
    lemma_scan_from_sentinel(src, 0, 1);
}

/// Scanning the same source text twice yields identical token sequences:
/// the scan outcome is a function of the source text alone, so any two
/// token sequences that scans of `src` produced are equal.
pub proof fn lemma_scan_deterministic(
    src: Seq<char>,
    first: Seq<TokenModel>,
    second: Seq<TokenModel>,
)
    requires
        first == scan_model(src).tokens,
        second == scan_model(src).tokens,
    ensures
        first == second,
{
}

} // verus!
