//! Normalization of one line read at the interactive prompt, before the
//! driver hands it to the scanner: the line is trimmed and every run of
//! whitespace is collapsed to a single space.

use vstd::prelude::*;

verus! {

/// The text without its leading and trailing whitespace.
pub uninterp spec fn ws_trimmed(s: Seq<char>) -> Seq<char>;

/// The text with every maximal run of whitespace replaced by one space.
pub uninterp spec fn ws_collapsed(s: Seq<char>) -> Seq<char>;

/// Relies on str::trim: it returns the text with leading and trailing
/// whitespace removed, a function of the text alone; an empty text stays
/// empty.
#[verifier::external_body]
fn trim_ws(s: &str) -> (r: &str)
    ensures
        r@ == ws_trimmed(s@),
        s@.len() == 0 ==> r@.len() == 0,
{
    s.trim()
}

/// Relies on regex::Regex::replace_all with the fixed pattern `\s+`, which
/// replaces every maximal run of whitespace in the haystack with the
/// replacement — here one space — a function of the haystack alone; an
/// empty haystack has no match and stays empty. Building the regex from
/// this fixed, valid pattern cannot fail.
#[verifier::external_body]
fn collapse_ws(s: &str) -> (r: String)
    ensures
        r@ == ws_collapsed(s@),
        s@.len() == 0 ==> r@.len() == 0,
{
    let re = regex::Regex::new("\\s+").unwrap();
    re.replace_all(s, " ").into_owned()
}

/// One prompt line as the driver scans it: trimmed first, then every
/// whitespace run collapsed to a single space.
pub open spec fn normalized_prompt_line(s: Seq<char>) -> Seq<char> {
    ws_collapsed(ws_trimmed(s))
}

/// Normalize one line read at the interactive prompt before scanning it.
pub fn normalize_prompt_line(s: &str) -> (r: String)
    ensures
        r@ == normalized_prompt_line(s@),
        s@.len() == 0 ==> r@.len() == 0,
{
    collapse_ws(trim_ws(s))
}

} // verus!
