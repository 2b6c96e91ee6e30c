//! The tokenization step of a parse attempt.  Tokenizing is done by the
//! `proc_macro2` crate; whether it succeeds on a given text is a fixed
//! function of the characters, named `lex_ok` and trusted of the crate.

use vstd::prelude::*;

use crate::outcome::ParseResult;

verus! {

#[verifier::external_type_specification]
#[verifier::external_body]
pub struct ExTokenStream(proc_macro2::TokenStream);

#[verifier::external_type_specification]
#[verifier::external_body]
pub struct ExLexError(proc_macro2::LexError);

/// Whether Rust tokenization succeeds on this text.
pub uninterp spec fn lex_ok(s: Seq<char>) -> bool;

/// Relies on `proc_macro2::TokenStream`'s `FromStr`: it returns `Ok` or a
/// `LexError` (never panics), and success depends on the characters alone.
#[verifier::external_body]
fn tokenize(src: &str) -> (r: Result<proc_macro2::TokenStream, proc_macro2::LexError>)
    ensures
        r is Ok <==> lex_ok(src@),
{
    src.parse::<proc_macro2::TokenStream>()
}

/// A tokenization failure: the lexer's own error value, kept so that the
/// verbose report can render the real message.
pub struct LexFailure {
    pub error: proc_macro2::LexError,
}

impl LexFailure {
    /// The first classification rule: a file whose raw text cannot be
    /// tokenized is the lex-failure outcome, terminal for that file,
    /// before any parsing.
    pub fn outcome(&self) -> (r: ParseResult)
        ensures
            r == ParseResult::Error,
    {
        ParseResult::Error
    }
}

/// Tokenize raw source text.  Succeeds exactly when the text lexes; a
/// failure carries the lexer's error for reporting and classifies as the
/// lex-failure outcome.
pub fn tokenize_source(src: &str) -> (r: Result<proc_macro2::TokenStream, LexFailure>)
    ensures
        r is Ok <==> lex_ok(src@),
{
    match tokenize(src) {
        Ok(tts) => Ok(tts),
        Err(error) => Err(LexFailure { error }),
    }
}

} // verus!
