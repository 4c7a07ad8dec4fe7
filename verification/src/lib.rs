//! A lexical scanner for a small C-like scripting language: it turns raw
//! source text into an ordered sequence of classified tokens, ending in an
//! end-of-input sentinel, and reports unexpected characters and unterminated
//! strings to an error sink without aborting the scan.

pub mod lox;
pub mod model;
pub mod prompt;
pub mod scanner;
pub mod token;
