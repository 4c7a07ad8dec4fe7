//! The scanner: it owns one source text and a cursor over it, and drives the
//! character-by-character state machine that classifies tokens. It is
//! verified to produce exactly the token sequence, the diagnostics and the
//! final line of the scan model in `crate::model`.

use vstd::prelude::*;

use crate::lox::{diagnostic_line, formatted_reports, Lox, LoxInterpreter};
use crate::model::{
    digits_end, identifier_end, identifier_kind, is_alpha_char, is_alpha_numeric_char,
    is_digit_char, keyword_entries, lemma_string_body_end_bounds,
    line_comment_end, newline_count, plain_token, scan_from, scan_model, scan_step,
    string_body_end, table_lookup, unexpected_character_message, unterminated_string_message,
    ReportModel,
};
use crate::token::{Token, TokenModel, TokenType};

verus! {

/// The scanner's state: the source it scans, the token it is in the middle
/// of (`start` to `current`), the line the cursor stands on, the tokens
/// emitted so far, and the read-only keyword table.
pub struct Scanner {
    source: String,
    length: usize,
    tokens: Vec<Token>,
    start: usize,
    current: usize,
    line: usize,
    keywords: Vec<(String, TokenType)>,
}

/// The mathematical values of a sequence of tokens.
pub open spec fn token_views(tokens: Seq<Token>) -> Seq<TokenModel> {
    tokens.map_values(|t: Token| t@)
}

/// The mathematical value of a stored keyword table.
pub open spec fn keyword_table_view(entries: Seq<(String, TokenType)>) -> Seq<
    (Seq<char>, TokenType),
> {
    entries.map_values(|p: (String, TokenType)| (p.0@, p.1))
}

/// One dispatch step taken: between cursor `(c0, l0)` and cursor `(c1, l1)`
/// the scanner emitted exactly `tok_delta`, reported exactly the diagnostics
/// `diag_delta`, and moved the error flag from `flag0` to `flag1` — all as
/// the scan model demands.
pub open spec fn scan_step_ok(
    src: Seq<char>,
    c0: nat,
    l0: nat,
    c1: nat,
    l1: nat,
    tok_delta: Seq<TokenModel>,
    diag_delta: Seq<Seq<char>>,
    flag0: bool,
    flag1: bool,
) -> bool {
    let m0 = scan_from(src, c0 as int, l0);
    let m1 = scan_from(src, c1 as int, l1);
    &&& m0.tokens == tok_delta + m1.tokens
    &&& formatted_reports(m0.reports) == diag_delta + formatted_reports(m1.reports)
    &&& m0.reports.len() >= m1.reports.len()
    &&& flag1 == (flag0 || m0.reports.len() > m1.reports.len())
    &&& m0.end_line == m1.end_line
}

/// The kind of a single-character token that needs no lookahead.
fn simple_token_kind(c: char) -> (r: Option<TokenType>)
    ensures
        r == crate::model::simple_kind(c),
{
    if c == '(' {
        Some(TokenType::LeftParen)
    } else if c == ')' {
        Some(TokenType::RightParen)
    } else if c == '{' {
        Some(TokenType::LeftBrace)
    } else if c == '}' {
        Some(TokenType::RightBrace)
    } else if c == ',' {
        Some(TokenType::Comma)
    } else if c == '.' {
        Some(TokenType::Dot)
    } else if c == '-' {
        Some(TokenType::Minus)
    } else if c == '+' {
        Some(TokenType::Plus)
    } else if c == ';' {
        Some(TokenType::Semicolon)
    } else if c == '*' {
        Some(TokenType::Star)
    } else {
        None
    }
}

/// For `! = < >`: the kind chosen when an `=` follows, and the kind chosen
/// otherwise.
fn equals_token_kinds(c: char) -> (r: Option<(TokenType, TokenType)>)
    ensures
        r == crate::model::equals_kinds(c),
{
    if c == '!' {
        Some((TokenType::BangEqual, TokenType::Bang))
    } else if c == '=' {
        Some((TokenType::EqualEqual, TokenType::Equal))
    } else if c == '<' {
        Some((TokenType::LessEqual, TokenType::Less))
    } else if c == '>' {
        Some((TokenType::GreaterEqual, TokenType::Greater))
    } else {
        None
    }
}

pub trait ScannerActions {
    /// The source text as a character sequence.
    spec fn src(&self) -> Seq<char>;

    /// The position where the token in progress began.
    spec fn start_pos(&self) -> nat;

    /// The cursor position: the next character to consume.
    spec fn cur_pos(&self) -> nat;

    /// The 1-based line the cursor stands on.
    spec fn cur_line(&self) -> nat;

    /// The tokens emitted so far.
    spec fn toks(&self) -> Seq<TokenModel>;

    /// The scanner's internal invariant.
    spec fn wf(&self) -> bool;

    /// Whether the cursor has consumed the whole source.
    fn is_at_end(&self) -> (r: bool)
        requires
            self.wf(),
        ensures
            r == (self.cur_pos() >= self.src().len()),
    ;

    /// Consume and return the character at the cursor.
    fn advance(&mut self) -> (c: char)
        requires
            old(self).wf(),
            old(self).cur_pos() < old(self).src().len(),
        ensures
            final(self).wf(),
            c == old(self).src()[old(self).cur_pos() as int],
            final(self).cur_pos() == old(self).cur_pos() + 1,
            final(self).src() == old(self).src(),
            final(self).start_pos() == old(self).start_pos(),
            final(self).cur_line() == old(self).cur_line(),
            final(self).toks() == old(self).toks(),
    ;

    /// The character at the cursor, or the null character at the end; the
    /// cursor does not move.
    fn peek(&self) -> (c: char)
        requires
            self.wf(),
        ensures
            c == (if self.cur_pos() < self.src().len() {
                self.src()[self.cur_pos() as int]
            } else {
                '\0'
            }),
    ;

    /// The character one past the cursor, or the null character if that
    /// position is past the end.
    fn peek_next(&self) -> (c: char)
        requires
            self.wf(),
        ensures
            c == (if self.cur_pos() + 1 < self.src().len() {
                self.src()[self.cur_pos() as int + 1]
            } else {
                '\0'
            }),
    ;

    /// Consume the character at the cursor exactly when it equals
    /// `expected`.
    fn match_next(&mut self, expected: char) -> (r: bool)
        requires
            old(self).wf(),
        ensures
            final(self).wf(),
            r == (old(self).cur_pos() < old(self).src().len() && old(self).src()[old(
                self,
            ).cur_pos() as int] == expected),
            r ==> final(self).cur_pos() == old(self).cur_pos() + 1,
            !r ==> final(self).cur_pos() == old(self).cur_pos(),
            final(self).src() == old(self).src(),
            final(self).start_pos() == old(self).start_pos(),
            final(self).cur_line() == old(self).cur_line(),
            final(self).toks() == old(self).toks(),
    ;

    /// Append a token with no literal content: its lexeme is the source
    /// text from `start` to the cursor.
    fn add_token(&mut self, tokentype: TokenType)
        requires
            old(self).wf(),
        ensures
            final(self).wf(),
            final(self).toks() == old(self).toks().push(
                plain_token(
                    tokentype,
                    old(self).src().subrange(
                        old(self).start_pos() as int,
                        old(self).cur_pos() as int,
                    ),
                    old(self).cur_line(),
                ),
            ),
            final(self).src() == old(self).src(),
            final(self).start_pos() == old(self).start_pos(),
            final(self).cur_pos() == old(self).cur_pos(),
            final(self).cur_line() == old(self).cur_line(),
    ;

    /// Append a token carrying extracted literal content.
    fn add_token_with_literal(&mut self, tokentype: TokenType, literal: String)
        requires
            old(self).wf(),
        ensures
            final(self).wf(),
            final(self).toks() == old(self).toks().push(
                TokenModel {
                    kind: tokentype,
                    lexeme: old(self).src().subrange(
                        old(self).start_pos() as int,
                        old(self).cur_pos() as int,
                    ),
                    literal: literal@,
                    line: old(self).cur_line(),
                },
            ),
            final(self).src() == old(self).src(),
            final(self).start_pos() == old(self).start_pos(),
            final(self).cur_pos() == old(self).cur_pos(),
            final(self).cur_line() == old(self).cur_line(),
    ;

    /// Drive one whole scan: from a fresh scanner, the token sequence of
    /// the scan model of the source — every emitted token, in source order,
    /// ended by the end-of-input sentinel — with every diagnostic the model
    /// reports appended to the sink, which keeps its error flag exactly
    /// when a report arrived.
    fn scan_tokens(&mut self, lox: &mut Lox) -> (tokens: Vec<Token>)
        requires
            old(self).wf(),
            old(self).cur_pos() == 0,
            old(self).cur_line() == 1,
            old(self).toks() == Seq::<TokenModel>::empty(),
        ensures
            final(self).src() == old(self).src(),
            token_views(tokens@) == scan_model(old(self).src()).tokens,
            final(lox).diagnostic_lines() == old(lox).diagnostic_lines() + formatted_reports(
                scan_model(old(self).src()).reports,
            ),
            final(lox).error_flag() == (old(lox).error_flag() || scan_model(
                old(self).src(),
            ).reports.len() > 0),
    ;

    /// Dispatch on one character: consume it, classify it, emit its token
    /// or report its diagnostic, exactly as one step of the scan model —
    /// the cursor, the line counter, the appended token and the appended
    /// diagnostic are each pinned to `scan_step`.
    fn scan_token(&mut self, lox: &mut Lox)
        requires
            old(self).wf(),
            old(self).start_pos() == old(self).cur_pos(),
            old(self).cur_pos() < old(self).src().len(),
        ensures
            ({
                let st = scan_step(
                    old(self).src(),
                    old(self).cur_pos() as int,
                    old(self).cur_line(),
                );
                &&& final(self).cur_pos() as int == st.next_pos
                &&& final(self).cur_line() == st.next_line
                &&& final(self).toks() == (match st.token {
                    Some(t) => old(self).toks().push(t),
                    None => old(self).toks(),
                })
                &&& final(lox).diagnostic_lines() == (match st.report {
                    Some(r) => old(lox).diagnostic_lines().push(
                        diagnostic_line(r.line, Seq::empty(), r.message),
                    ),
                    None => old(lox).diagnostic_lines(),
                })
                &&& final(lox).error_flag() == (old(lox).error_flag() || st.report is Some)
            }),
            final(self).wf(),
            final(self).src() == old(self).src(),
            old(self).cur_pos() < final(self).cur_pos(),
            final(self).cur_pos() <= final(self).src().len(),
            old(self).toks().len() <= final(self).toks().len(),
            final(self).toks().take(old(self).toks().len() as int) == old(self).toks(),
            old(lox).diagnostic_lines().len() <= final(lox).diagnostic_lines().len(),
            final(lox).diagnostic_lines().take(old(lox).diagnostic_lines().len() as int) == old(
                lox,
            ).diagnostic_lines(),
            scan_step_ok(
                old(self).src(),
                old(self).cur_pos(),
                old(self).cur_line(),
                final(self).cur_pos(),
                final(self).cur_line(),
                final(self).toks().skip(old(self).toks().len() as int),
                final(lox).diagnostic_lines().skip(old(lox).diagnostic_lines().len() as int),
                old(lox).error_flag(),
                final(lox).error_flag(),
            ),
    ;

    /// Scan the rest of a string literal, the opening quote already
    /// consumed: up to the closing quote, counting embedded newlines, a
    /// `StringText` token whose literal is the text strictly between the
    /// quotes; if the input ends first, no token and one "unterminated
    /// string" report.
    fn string(&mut self, lox: &mut Lox)
        requires
            old(self).wf(),
            old(self).start_pos() + 1 == old(self).cur_pos(),
            old(self).start_pos() < old(self).src().len(),
        ensures
            final(self).wf(),
            final(self).src() == old(self).src(),
            final(self).start_pos() == old(self).start_pos(),
            ({
                let src = old(self).src();
                let s0 = old(self).start_pos() as int;
                let e = string_body_end(src, old(self).cur_pos() as int);
                let nl = (old(self).cur_line() + newline_count(
                    src,
                    old(self).cur_pos() as int,
                    e,
                )) as nat;
                &&& final(self).cur_line() == nl
                &&& if e >= src.len() {
                    &&& final(self).cur_pos() == src.len()
                    &&& final(self).toks() == old(self).toks()
                    &&& final(lox).diagnostic_lines() == old(lox).diagnostic_lines().push(
                        diagnostic_line(nl, Seq::empty(), unterminated_string_message()),
                    )
                    &&& final(lox).error_flag()
                } else {
                    &&& final(self).cur_pos() == e + 1
                    &&& final(self).toks() == old(self).toks().push(
                        TokenModel {
                            kind: TokenType::StringText,
                            lexeme: src.subrange(s0, e + 1),
                            literal: src.subrange(s0 + 1, e),
                            line: nl,
                        },
                    )
                    &&& final(lox).diagnostic_lines() == old(lox).diagnostic_lines()
                    &&& final(lox).error_flag() == old(lox).error_flag()
                }
            }),
    ;

    /// Scan the rest of a number literal, its first digit already consumed:
    /// a maximal digit run, then a fractional part only when a dot is
    /// directly followed by a digit. Lexeme and literal are both the raw
    /// matched substring.
    fn number(&mut self)
        requires
            old(self).wf(),
            old(self).start_pos() + 1 == old(self).cur_pos(),
            old(self).start_pos() < old(self).src().len(),
            is_digit_char(old(self).src()[old(self).start_pos() as int]),
        ensures
            final(self).wf(),
            final(self).src() == old(self).src(),
            final(self).start_pos() == old(self).start_pos(),
            final(self).cur_line() == old(self).cur_line(),
            ({
                let src = old(self).src();
                let s0 = old(self).start_pos() as int;
                let d = digits_end(src, old(self).cur_pos() as int);
                let e = if d < src.len() && src[d] == '.' && d + 1 < src.len() && is_digit_char(
                    src[d + 1],
                ) {
                    digits_end(src, d + 1)
                } else {
                    d
                };
                &&& final(self).cur_pos() == e
                &&& final(self).toks() == old(self).toks().push(
                    TokenModel {
                        kind: TokenType::Number,
                        lexeme: src.subrange(s0, e),
                        literal: src.subrange(s0, e),
                        line: old(self).cur_line(),
                    },
                )
            }),
    ;

    /// Scan the rest of an identifier, its first character already
    /// consumed: a maximal run of letters, digits and underscores, emitted
    /// as its keyword's kind when the text is reserved, else as
    /// `Identifier`.
    fn identifier(&mut self)
        requires
            old(self).wf(),
            old(self).start_pos() + 1 == old(self).cur_pos(),
            old(self).start_pos() < old(self).src().len(),
        ensures
            final(self).wf(),
            final(self).src() == old(self).src(),
            final(self).start_pos() == old(self).start_pos(),
            final(self).cur_line() == old(self).cur_line(),
            ({
                let src = old(self).src();
                let s0 = old(self).start_pos() as int;
                let e = identifier_end(src, old(self).cur_pos() as int);
                &&& final(self).cur_pos() == e
                &&& final(self).toks() == old(self).toks().push(
                    plain_token(
                        identifier_kind(src.subrange(s0, e)),
                        src.subrange(s0, e),
                        old(self).cur_line(),
                    ),
                )
            }),
    ;

    /// Whether `c` is an ASCII decimal digit.
    fn is_digit(&self, c: char) -> (r: bool)
        ensures
            r == is_digit_char(c),
    ;

    /// Whether `c` may begin an identifier.
    fn is_alpha(&self, c: char) -> (r: bool)
        ensures
            r == is_alpha_char(c),
    ;

    /// Whether `c` may continue an identifier.
    fn is_alpha_numeric(&self, c: char) -> (r: bool)
        ensures
            r == is_alpha_numeric_char(c),
    ;
}

impl Scanner {
    /// The kind reserved for `text`, consulted without mutating the table.
    fn keyword_lookup(&self, text: &String) -> (r: Option<TokenType>)
        requires
            self.wf(),
        ensures
            r == table_lookup(keyword_entries(), text@),
    {
        let n = self.keywords.len();
        let mut i: usize = 0;
        proof {
            assert(keyword_table_view(self.keywords@).skip(0) =~= keyword_table_view(
                self.keywords@,
            ));
        }
        while i < n
            invariant
                self.wf(),
                n == self.keywords.len(),
                i <= n,
                table_lookup(keyword_entries(), text@) == table_lookup(
                    keyword_table_view(self.keywords@).skip(i as int),
                    text@,
                ),
            decreases n - i,
        {
            let entry = &self.keywords[i];
            if entry.0 == *text {
                proof {
                    assert(keyword_table_view(self.keywords@).skip(i as int)[0]
                        == keyword_table_view(self.keywords@)[i as int]);
                }
                return Some(entry.1);
            }
            proof {
                assert(keyword_table_view(self.keywords@).skip(i as int)[0]
                    == keyword_table_view(self.keywords@)[i as int]);
                assert(keyword_table_view(self.keywords@).skip(i as int).drop_first()
                    =~= keyword_table_view(self.keywords@).skip(i as int + 1));
            }
            i = i + 1;
        }
        None
    }
}

impl ScannerActions for Scanner {
    closed spec fn src(&self) -> Seq<char> {
        self.source@
    }

    closed spec fn start_pos(&self) -> nat {
        self.start as nat
    }

    closed spec fn cur_pos(&self) -> nat {
        self.current as nat
    }

    closed spec fn cur_line(&self) -> nat {
        self.line as nat
    }

    closed spec fn toks(&self) -> Seq<TokenModel> {
        token_views(self.tokens@)
    }

    closed spec fn wf(&self) -> bool {
        &&& self.length == self.source@.len()
        &&& self.source@.len() < usize::MAX
        &&& self.start <= self.current <= self.length
        &&& 1 <= self.line
        &&& self.line <= self.current + 1
        &&& keyword_table_view(self.keywords@) == keyword_entries()
    }

    fn is_at_end(&self) -> (r: bool) {
        self.current >= self.length
    }

    fn advance(&mut self) -> (c: char) {
        let c = self.source.as_str().get_char(self.current);
        self.current = self.current + 1;
        c
    }

    fn peek(&self) -> (c: char) {
        if self.current >= self.length {
            '\0'
        } else {
            self.source.as_str().get_char(self.current)
        }
    }

    fn peek_next(&self) -> (c: char) {
        if self.current + 1 >= self.length {
            '\0'
        } else {
            self.source.as_str().get_char(self.current + 1)
        }
    }

    fn match_next(&mut self, expected: char) -> (r: bool) {
        if self.current >= self.length {
            return false;
        }
        let c = self.source.as_str().get_char(self.current);
        if c != expected {
            return false;
        }
        self.current = self.current + 1;
        true
    }

    fn add_token(&mut self, tokentype: TokenType) {
        let lexeme = String::from_str(self.source.as_str().substring_char(self.start, self.current));
        let token = Token { tokentype, lexeme, literal: String::new(), line: self.line };
        self.tokens.push(token);
        proof {
            assert(final(self).toks() =~= old(self).toks().push(
                plain_token(
                    tokentype,
                    old(self).src().subrange(
                        old(self).start_pos() as int,
                        old(self).cur_pos() as int,
                    ),
                    old(self).cur_line(),
                ),
            ));
        }
    }

    fn add_token_with_literal(&mut self, tokentype: TokenType, literal: String) {
        let lexeme = String::from_str(self.source.as_str().substring_char(self.start, self.current));
        let ghost literal_text = literal@;
        let token = Token { tokentype, lexeme, literal, line: self.line };
        self.tokens.push(token);
        proof {
            assert(final(self).toks() =~= old(self).toks().push(
                TokenModel {
                    kind: tokentype,
                    lexeme: old(self).src().subrange(
                        old(self).start_pos() as int,
                        old(self).cur_pos() as int,
                    ),
                    literal: literal_text,
                    line: old(self).cur_line(),
                },
            ));
        }
    }

    fn is_digit(&self, c: char) -> (r: bool) {
        let u = c as u32;
        '0' as u32 <= u && u <= '9' as u32
    }

    fn is_alpha(&self, c: char) -> (r: bool) {
        let u = c as u32;
        ('a' as u32 <= u && u <= 'z' as u32) || ('A' as u32 <= u && u <= 'Z' as u32) || c == '_'
    }

    fn is_alpha_numeric(&self, c: char) -> (r: bool) {
        self.is_alpha(c) || self.is_digit(c)
    }

    fn scan_token(&mut self, lox: &mut Lox) {
        let ghost src0 = self.src();
        let ghost i = self.cur_pos() as int;
        let ghost l0 = self.cur_line();
        let ghost t0 = self.toks();
        let ghost d0 = lox.diagnostic_lines();
        let c = self.advance();
        if let Some(kind) = simple_token_kind(c) {
            self.add_token(kind);
            proof {
                let t = plain_token(kind, src0.subrange(i, i + 1), l0);
                let m1 = scan_from(src0, self.cur_pos() as int, self.cur_line());
                assert(self.toks().skip(t0.len() as int) =~= seq![t]);
                assert(self.toks().take(t0.len() as int) =~= t0);
                assert(lox.diagnostic_lines().skip(d0.len() as int) =~= Seq::<Seq<char>>::empty());
                assert(scan_from(src0, i, l0).tokens =~= seq![t] + m1.tokens);
                assert(Seq::<Seq<char>>::empty() + formatted_reports(m1.reports)
                    =~= formatted_reports(m1.reports));
            }
            return ;
        }
        if let Some(kinds) = equals_token_kinds(c) {
            let matched = self.match_next('=');
            let kind = if matched {
                kinds.0
            } else {
                kinds.1
            };
            self.add_token(kind);
            proof {
                let width = if matched {
                    2int
                } else {
                    1int
                };
                let t = plain_token(kind, src0.subrange(i, i + width), l0);
                let m1 = scan_from(src0, self.cur_pos() as int, self.cur_line());
                assert(self.toks().skip(t0.len() as int) =~= seq![t]);
                assert(self.toks().take(t0.len() as int) =~= t0);
                assert(lox.diagnostic_lines().skip(d0.len() as int) =~= Seq::<Seq<char>>::empty());
                assert(scan_from(src0, i, l0).tokens =~= seq![t] + m1.tokens);
                assert(Seq::<Seq<char>>::empty() + formatted_reports(m1.reports)
                    =~= formatted_reports(m1.reports));
            }
            return ;
        }
        if c == '/' {
            if self.match_next('/') {
                while self.peek() != '\n' && !self.is_at_end()
                    invariant
                        self.wf(),
                        self.src() == src0,
                        self.toks() == t0,
                        self.cur_line() == l0,
                        i + 2 <= self.cur_pos() <= src0.len(),
                        line_comment_end(src0, i + 2) == line_comment_end(
                            src0,
                            self.cur_pos() as int,
                        ),
                    decreases src0.len() - self.cur_pos(),
                {
                    self.advance();
                }
                proof {
                    let m1 = scan_from(src0, self.cur_pos() as int, self.cur_line());
                    assert(self.toks().skip(t0.len() as int) =~= Seq::<TokenModel>::empty());
                    assert(self.toks().take(t0.len() as int) =~= t0);
                    assert(lox.diagnostic_lines().skip(d0.len() as int) =~= Seq::<
                        Seq<char>,
                    >::empty());
                    assert(Seq::<TokenModel>::empty() + m1.tokens =~= m1.tokens);
                    assert(Seq::<Seq<char>>::empty() + formatted_reports(m1.reports)
                        =~= formatted_reports(m1.reports));
                }
            } else {
                self.add_token(TokenType::Slash);
                proof {
                    let t = plain_token(TokenType::Slash, src0.subrange(i, i + 1), l0);
                    let m1 = scan_from(src0, self.cur_pos() as int, self.cur_line());
                    assert(self.toks().skip(t0.len() as int) =~= seq![t]);
                    assert(self.toks().take(t0.len() as int) =~= t0);
                    assert(lox.diagnostic_lines().skip(d0.len() as int) =~= Seq::<
                        Seq<char>,
                    >::empty());
                    assert(scan_from(src0, i, l0).tokens =~= seq![t] + m1.tokens);
                    assert(Seq::<Seq<char>>::empty() + formatted_reports(m1.reports)
                        =~= formatted_reports(m1.reports));
                }
            }
            return ;
        }
        if c == ' ' || c == '\r' || c == '\t' || c == '\n' {
            if c == '\n' {
                self.line = self.line + 1;
            }
            proof {
                let m1 = scan_from(src0, self.cur_pos() as int, self.cur_line());
                assert(self.toks().skip(t0.len() as int) =~= Seq::<TokenModel>::empty());
                assert(self.toks().take(t0.len() as int) =~= t0);
                assert(lox.diagnostic_lines().skip(d0.len() as int) =~= Seq::<Seq<char>>::empty());
                assert(Seq::<TokenModel>::empty() + m1.tokens =~= m1.tokens);
                assert(Seq::<Seq<char>>::empty() + formatted_reports(m1.reports)
                    =~= formatted_reports(m1.reports));
            }
            return ;
        }
        if c == '"' {
            self.string(lox);
            proof {
                lemma_string_body_end_bounds(src0, i + 1);
                let e = string_body_end(src0, i + 1);
                let nl = (l0 + newline_count(src0, i + 1, e)) as nat;
                let m1 = scan_from(src0, self.cur_pos() as int, self.cur_line());
                if e >= src0.len() {
                    let r = ReportModel { line: nl, message: unterminated_string_message() };
                    assert(lox.diagnostic_lines().skip(d0.len() as int) =~= seq![
                        diagnostic_line(nl, Seq::empty(), unterminated_string_message()),
                    ]);
                    assert(lox.diagnostic_lines().take(d0.len() as int) =~= d0);
                    assert(self.toks().skip(t0.len() as int) =~= Seq::<TokenModel>::empty());
                    assert(formatted_reports(seq![r] + m1.reports) =~= seq![
                        diagnostic_line(nl, Seq::empty(), r.message),
                    ] + formatted_reports(m1.reports));
                    assert(Seq::<TokenModel>::empty() + m1.tokens =~= m1.tokens);
                } else {
                    let t = TokenModel {
                        kind: TokenType::StringText,
                        lexeme: src0.subrange(i, e + 1),
                        literal: src0.subrange(i + 1, e),
                        line: nl,
                    };
                    assert(self.toks().skip(t0.len() as int) =~= seq![t]);
                    assert(self.toks().take(t0.len() as int) =~= t0);
                    assert(lox.diagnostic_lines().skip(d0.len() as int) =~= Seq::<
                        Seq<char>,
                    >::empty());
                    assert(scan_from(src0, i, l0).tokens =~= seq![t] + m1.tokens);
                    assert(Seq::<Seq<char>>::empty() + formatted_reports(m1.reports)
                        =~= formatted_reports(m1.reports));
                }
            }
            return ;
        }
        if self.is_digit(c) {
            self.number();
            proof {
                let d = digits_end(src0, i + 1);
                let e = if d < src0.len() && src0[d] == '.' && d + 1 < src0.len() && is_digit_char(
                    src0[d + 1],
                ) {
                    digits_end(src0, d + 1)
                } else {
                    d
                };
                let t = TokenModel {
                    kind: TokenType::Number,
                    lexeme: src0.subrange(i, e),
                    literal: src0.subrange(i, e),
                    line: l0,
                };
                let m1 = scan_from(src0, self.cur_pos() as int, self.cur_line());
                assert(self.toks().skip(t0.len() as int) =~= seq![t]);
                assert(self.toks().take(t0.len() as int) =~= t0);
                assert(lox.diagnostic_lines().skip(d0.len() as int) =~= Seq::<Seq<char>>::empty());
                assert(scan_from(src0, i, l0).tokens =~= seq![t] + m1.tokens);
                assert(Seq::<Seq<char>>::empty() + formatted_reports(m1.reports)
                    =~= formatted_reports(m1.reports));
            }
            return ;
        }
        if self.is_alpha(c) {
            self.identifier();
            proof {
                let e = identifier_end(src0, i + 1);
                let t = plain_token(identifier_kind(src0.subrange(i, e)), src0.subrange(i, e), l0);
                let m1 = scan_from(src0, self.cur_pos() as int, self.cur_line());
                assert(self.toks().skip(t0.len() as int) =~= seq![t]);
                assert(self.toks().take(t0.len() as int) =~= t0);
                assert(lox.diagnostic_lines().skip(d0.len() as int) =~= Seq::<Seq<char>>::empty());
                assert(scan_from(src0, i, l0).tokens =~= seq![t] + m1.tokens);
                assert(Seq::<Seq<char>>::empty() + formatted_reports(m1.reports)
                    =~= formatted_reports(m1.reports));
            }
            return ;
        }
        let line = self.line;
        lox.error(line, "Unexpected character");
        proof {
            let r = ReportModel { line: l0, message: unexpected_character_message() };
            let m1 = scan_from(src0, self.cur_pos() as int, self.cur_line());
            assert(lox.diagnostic_lines().skip(d0.len() as int) =~= seq![
                diagnostic_line(l0, Seq::empty(), unexpected_character_message()),
            ]);
            assert(lox.diagnostic_lines().take(d0.len() as int) =~= d0);
            assert(self.toks().skip(t0.len() as int) =~= Seq::<TokenModel>::empty());
            assert(formatted_reports(seq![r] + m1.reports) =~= seq![
                diagnostic_line(l0, Seq::empty(), r.message),
            ] + formatted_reports(m1.reports));
            assert(Seq::<TokenModel>::empty() + m1.tokens =~= m1.tokens);
        }
    }

    fn scan_tokens(&mut self, lox: &mut Lox) -> (tokens: Vec<Token>) {
        let ghost src0 = self.src();
        let ghost d0 = lox.diagnostic_lines();
        let ghost f0 = lox.error_flag();
        proof {
            assert(scan_model(src0).tokens =~= self.toks() + scan_from(
                src0,
                self.cur_pos() as int,
                self.cur_line(),
            ).tokens);
            assert(lox.diagnostic_lines().skip(d0.len() as int) =~= Seq::<Seq<char>>::empty());
            assert(formatted_reports(scan_model(src0).reports) =~= lox.diagnostic_lines().skip(
                d0.len() as int,
            ) + formatted_reports(scan_from(src0, self.cur_pos() as int, self.cur_line()).reports));
            assert(lox.diagnostic_lines().take(d0.len() as int) =~= d0);
        }
        while !self.is_at_end()
            invariant
                self.wf(),
                self.src() == src0,
                d0.len() <= lox.diagnostic_lines().len(),
                lox.diagnostic_lines().take(d0.len() as int) == d0,
                scan_model(src0).tokens == self.toks() + scan_from(
                    src0,
                    self.cur_pos() as int,
                    self.cur_line(),
                ).tokens,
                formatted_reports(scan_model(src0).reports) == lox.diagnostic_lines().skip(
                    d0.len() as int,
                ) + formatted_reports(
                    scan_from(src0, self.cur_pos() as int, self.cur_line()).reports,
                ),
                scan_model(src0).reports.len() >= scan_from(
                    src0,
                    self.cur_pos() as int,
                    self.cur_line(),
                ).reports.len(),
                lox.error_flag() == (f0 || scan_model(src0).reports.len() > scan_from(
                    src0,
                    self.cur_pos() as int,
                    self.cur_line(),
                ).reports.len()),
                scan_model(src0).end_line == scan_from(
                    src0,
                    self.cur_pos() as int,
                    self.cur_line(),
                ).end_line,
            decreases src0.len() - self.cur_pos(),
        {
            let ghost tp = self.toks();
            let ghost dp = lox.diagnostic_lines();
            self.start = self.current;
            self.scan_token(lox);
            proof {
                let delta_t = self.toks().skip(tp.len() as int);
                let delta_d = lox.diagnostic_lines().skip(dp.len() as int);
                let m1t = scan_from(src0, self.cur_pos() as int, self.cur_line()).tokens;
                let m1r = scan_from(src0, self.cur_pos() as int, self.cur_line()).reports;
                assert(self.toks() =~= tp + delta_t);
                assert(lox.diagnostic_lines() =~= dp + delta_d);
                assert((tp + delta_t) + m1t =~= tp + (delta_t + m1t));
                assert((dp.skip(d0.len() as int) + delta_d) + formatted_reports(m1r) =~= dp.skip(
                    d0.len() as int,
                ) + (delta_d + formatted_reports(m1r)));
                assert(lox.diagnostic_lines().skip(d0.len() as int) =~= dp.skip(d0.len() as int)
                    + delta_d);
                assert(lox.diagnostic_lines().take(d0.len() as int) =~= d0);
            }
        }
        proof {
            assert(scan_from(src0, self.cur_pos() as int, self.cur_line()).tokens =~= seq![
                TokenModel {
                    kind: TokenType::EndOfInput,
                    lexeme: Seq::empty(),
                    literal: Seq::empty(),
                    line: self.cur_line(),
                },
            ]);
            assert(formatted_reports(
                scan_from(src0, self.cur_pos() as int, self.cur_line()).reports,
            ) =~= Seq::<Seq<char>>::empty());
        }
        let ghost tp = self.toks();
        let line = self.line;
        let sentinel = Token {
            tokentype: TokenType::EndOfInput,
            lexeme: String::new(),
            literal: String::new(),
            line,
        };
        self.tokens.push(sentinel);
        proof {
            assert(self.toks() =~= tp.push(
                TokenModel {
                    kind: TokenType::EndOfInput,
                    lexeme: Seq::empty(),
                    literal: Seq::empty(),
                    line: self.cur_line(),
                },
            ));
            assert(scan_model(src0).tokens =~= self.toks());
            assert(lox.diagnostic_lines() =~= d0 + formatted_reports(scan_model(src0).reports));
        }
        let mut out: Vec<Token> = Vec::new();
        core::mem::swap(&mut self.tokens, &mut out);
        out
    }

    fn string(&mut self, lox: &mut Lox) {
        let ghost src0 = self.src();
        let ghost s0 = self.start_pos();
        let ghost c0 = self.cur_pos();
        let ghost l0 = self.cur_line();
        let ghost t0 = self.toks();
        while self.peek() != '"' && !self.is_at_end()
            invariant
                self.wf(),
                self.src() == src0,
                self.start_pos() == s0,
                self.toks() == t0,
                c0 <= self.cur_pos() <= src0.len(),
                string_body_end(src0, c0 as int) == string_body_end(src0, self.cur_pos() as int),
                self.cur_line() == l0 + newline_count(src0, c0 as int, self.cur_pos() as int),
            decreases src0.len() - self.cur_pos(),
        {
            let ghost cb = self.cur_pos();
            let ch = self.advance();
            if ch == '\n' {
                self.line = self.line + 1;
            }
            proof {
                assert(newline_count(src0, c0 as int, cb as int + 1) == newline_count(
                    src0,
                    c0 as int,
                    cb as int,
                ) + (if src0[cb as int] == '\n' {
                    1nat
                } else {
                    0nat
                }));
            }
        }
        if self.is_at_end() {
            let line = self.line;
            lox.error(line, "Unterminated string.");
            return ;
        }
        self.advance();
        let literal = String::from_str(
            self.source.as_str().substring_char(self.start + 1, self.current - 1),
        );
        self.add_token_with_literal(TokenType::StringText, literal);
    }

    fn number(&mut self) {
        let ghost src0 = self.src();
        let ghost s0 = self.start_pos();
        let ghost c0 = self.cur_pos();
        while self.is_digit(self.peek())
            invariant
                self.wf(),
                self.src() == src0,
                self.start_pos() == s0,
                self.toks() == old(self).toks(),
                self.cur_line() == old(self).cur_line(),
                c0 <= self.cur_pos() <= src0.len(),
                digits_end(src0, c0 as int) == digits_end(src0, self.cur_pos() as int),
            decreases src0.len() - self.cur_pos(),
        {
            self.advance();
        }
        let p = self.peek();
        let pn = self.peek_next();
        if p == '.' && self.is_digit(pn) {
            self.advance();
            let ghost c1 = self.cur_pos();
            while self.is_digit(self.peek())
                invariant
                    self.wf(),
                    self.src() == src0,
                    self.start_pos() == s0,
                    self.toks() == old(self).toks(),
                    self.cur_line() == old(self).cur_line(),
                    c1 <= self.cur_pos() <= src0.len(),
                    digits_end(src0, c1 as int) == digits_end(src0, self.cur_pos() as int),
                decreases src0.len() - self.cur_pos(),
            {
                self.advance();
            }
        }
        let text = String::from_str(self.source.as_str().substring_char(self.start, self.current));
        self.add_token_with_literal(TokenType::Number, text);
    }

    fn identifier(&mut self) {
        let ghost src0 = self.src();
        let ghost s0 = self.start_pos();
        let ghost c0 = self.cur_pos();
        while self.is_alpha_numeric(self.peek())
            invariant
                self.wf(),
                self.src() == src0,
                self.start_pos() == s0,
                self.toks() == old(self).toks(),
                self.cur_line() == old(self).cur_line(),
                c0 <= self.cur_pos() <= src0.len(),
                identifier_end(src0, c0 as int) == identifier_end(src0, self.cur_pos() as int),
            decreases src0.len() - self.cur_pos(),
        {
            self.advance();
        }
        let text = String::from_str(self.source.as_str().substring_char(self.start, self.current));
        let tokentype = match self.keyword_lookup(&text) {
            Some(kind) => kind,
            None => TokenType::Identifier,
        };
        self.add_token(tokentype);
    }
}

/// Build a single-use scanner over `content`, its cursor at the first
/// character of line 1, its keyword table holding the sixteen reserved
/// words. The source must be shorter than the machine's address space can
/// count.
pub fn create_scanner(content: String) -> (s: Scanner)
    requires
        content@.len() < usize::MAX,
    ensures
        s.wf(),
        s.src() == content@,
        s.start_pos() == 0,
        s.cur_pos() == 0,
        s.cur_line() == 1,
        s.toks() == Seq::<TokenModel>::empty(),
{
    let length = content.as_str().unicode_len();
    let mut keywords: Vec<(String, TokenType)> = Vec::new();
    keywords.push((String::from_str("and"), TokenType::And));
    keywords.push((String::from_str("class"), TokenType::Class));
    keywords.push((String::from_str("else"), TokenType::Else));
    keywords.push((String::from_str("false"), TokenType::False));
    keywords.push((String::from_str("for"), TokenType::For));
    keywords.push((String::from_str("fun"), TokenType::Fun));
    keywords.push((String::from_str("if"), TokenType::If));
    keywords.push((String::from_str("nil"), TokenType::Nil));
    keywords.push((String::from_str("or"), TokenType::Or));
    keywords.push((String::from_str("print"), TokenType::Print));
    keywords.push((String::from_str("return"), TokenType::Return));
    keywords.push((String::from_str("super"), TokenType::Super));
    keywords.push((String::from_str("this"), TokenType::This));
    keywords.push((String::from_str("true"), TokenType::True));
    keywords.push((String::from_str("var"), TokenType::Var));
    keywords.push((String::from_str("while"), TokenType::While));
    let tokens: Vec<Token> = Vec::new();
    let s = Scanner { source: content, length, tokens, start: 0, current: 0, line: 1, keywords };
    proof {
        assert(keyword_table_view(s.keywords@) =~= keyword_entries());
        assert(s.toks() =~= Seq::<TokenModel>::empty());
    }
    s
}

} // verus!
