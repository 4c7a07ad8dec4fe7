//! The error sink and driver: it accumulates the formatted diagnostic lines
//! that the scanner reports, keeps the persistent "had error" flag, and owns
//! the entry point that scans one source text. The host prints the
//! accumulated diagnostics and tokens; nothing here touches a stream.

use vstd::prelude::*;

use crate::model::{scan_model, ReportModel};
use crate::scanner::{create_scanner, token_views, ScannerActions};
use crate::token::Token;

verus! {

/// The error sink. `had_error` stays set once any report arrives;
/// `diagnostics` holds the formatted diagnostic lines in report order, for
/// the host to write out.
pub struct Lox {
    pub had_error: bool,
    pub diagnostics: Vec<String>,
}

/// The decimal digit character for `d < 10`.
pub open spec fn decimal_digit_char(d: nat) -> char {
    if d == 0 {
        '0'
    } else if d == 1 {
        '1'
    } else if d == 2 {
        '2'
    } else if d == 3 {
        '3'
    } else if d == 4 {
        '4'
    } else if d == 5 {
        '5'
    } else if d == 6 {
        '6'
    } else if d == 7 {
        '7'
    } else if d == 8 {
        '8'
    } else {
        '9'
    }
}

/// The decimal digit sequence of `n`, most significant digit first, with no
/// leading zero except for `n == 0` itself.
pub open spec fn decimal_seq(n: nat) -> Seq<char>
    decreases n,
{
    if n < 10 {
        seq![decimal_digit_char(n)]
    } else {
        decimal_seq(n / 10) + seq![decimal_digit_char(n % 10)]
    }
}

/// The diagnostic line reported for line `line`, location qualifier
/// `where_at` and message `message`.
pub open spec fn diagnostic_line(line: nat, where_at: Seq<char>, message: Seq<char>) -> Seq<char> {
    "[line "@ + decimal_seq(line) + "] Error"@ + where_at + ": "@ + message
}

/// The diagnostic lines that a sequence of scanner reports produces: the
/// scanner reports with an empty location qualifier.
pub open spec fn formatted_reports(reports: Seq<ReportModel>) -> Seq<Seq<char>> {
    reports.map_values(|r: ReportModel| diagnostic_line(r.line, Seq::empty(), r.message))
}

/// The decimal digit of `d < 10` as a string slice.
fn decimal_digit_str(d: usize) -> (r: &'static str)
    requires
        d < 10,
    ensures
        r@ == seq![decimal_digit_char(d as nat)],
{
    proof {
        reveal_strlit("0");
        reveal_strlit("1");
        reveal_strlit("2");
        reveal_strlit("3");
        reveal_strlit("4");
        reveal_strlit("5");
        reveal_strlit("6");
        reveal_strlit("7");
        reveal_strlit("8");
        reveal_strlit("9");
    }
    let r = if d == 0 {
        "0"
    } else if d == 1 {
        "1"
    } else if d == 2 {
        "2"
    } else if d == 3 {
        "3"
    } else if d == 4 {
        "4"
    } else if d == 5 {
        "5"
    } else if d == 6 {
        "6"
    } else if d == 7 {
        "7"
    } else if d == 8 {
        "8"
    } else {
        "9"
    };
    proof {
        assert(r@ =~= seq![decimal_digit_char(d as nat)]);
    }
    r
}

/// The decimal text of `n`.
pub fn decimal_string(n: usize) -> (r: String)
    ensures
        r@ == decimal_seq(n as nat),
    decreases n,
{
    if n < 10 {
        String::from_str(decimal_digit_str(n))
    } else {
        let mut r = decimal_string(n / 10);
        r.append(decimal_digit_str(n % 10));
        r
    }
}

pub trait LoxInterpreter {
    /// Whether any report has arrived.
    spec fn error_flag(&self) -> bool;

    /// The formatted diagnostic lines accumulated so far.
    spec fn diagnostic_lines(&self) -> Seq<Seq<char>>;

    /// Scan one source text: the token sequence of its scan model, every
    /// diagnostic the scan reports appended for the host to print, and the
    /// persistent error flag set exactly when a report arrived.
    fn run(&mut self, content: &str) -> (tokens: Vec<Token>)
        requires
            content@.len() < usize::MAX,
        ensures
            token_views(tokens@) == scan_model(content@).tokens,
            final(self).diagnostic_lines() == old(self).diagnostic_lines() + formatted_reports(
                scan_model(content@).reports,
            ),
            final(self).error_flag() == (old(self).error_flag() || scan_model(
                content@,
            ).reports.len() > 0),
    ;

    /// Record a diagnostic: format it, keep it for the host, and set the
    /// persistent error flag.
    fn report(&mut self, line: usize, where_at: &str, message: &str)
        ensures
            final(self).error_flag(),
            final(self).diagnostic_lines() == old(self).diagnostic_lines().push(
                diagnostic_line(line as nat, where_at@, message@),
            ),
    ;

    /// Record a diagnostic with no location qualifier.
    fn error(&mut self, line: usize, message: &str)
        ensures
            final(self).error_flag(),
            final(self).diagnostic_lines() == old(self).diagnostic_lines().push(
                diagnostic_line(line as nat, Seq::empty(), message@),
            ),
    ;
}

impl LoxInterpreter for Lox {
    open spec fn error_flag(&self) -> bool {
        self.had_error
    }

    open spec fn diagnostic_lines(&self) -> Seq<Seq<char>> {
        self.diagnostics@.map_values(|s: String| s@)
    }

    fn run(&mut self, content: &str) -> (tokens: Vec<Token>) {
        let mut scanner_instance = create_scanner(String::from_str(content));
        scanner_instance.scan_tokens(self)
    }

    fn report(&mut self, line: usize, where_at: &str, message: &str) {
        let mut d = String::from_str("[line ");
        d.append(decimal_string(line).as_str());
        d.append("] Error");
        d.append(where_at);
        d.append(": ");
        d.append(message);
        self.diagnostics.push(d);
        self.had_error = true;
        proof {
            assert(final(self).diagnostic_lines() =~= old(self).diagnostic_lines().push(
                diagnostic_line(line as nat, where_at@, message@),
            ));
        }
    }

    fn error(&mut self, line: usize, message: &str) {
        self.report(line, "", message);
        proof {
            reveal_strlit("");
            assert(""@ =~= Seq::<char>::empty());
        }
    }
}

} // verus!
