//! Per-file outcome classification: map one file's parse attempt to exactly
//! one of four outcomes, running the ambiguity check when a full parse
//! forest exists.

use vstd::prelude::*;

use crate::checker::ambiguity_check;
use crate::forest::Forest;

verus! {

/// The four per-file outcomes of a corpus run.
#[derive(Clone, Copy, PartialEq, Eq, Structural, Debug)]
pub enum ParseResult {
    /// Parsed fully with a single derivation.
    Unambiguous,
    /// Parsed fully, but some reachable position has several derivations.
    Ambiguous,
    /// Only a prefix of the input could be parsed.
    Partial,
    /// The raw input could not even be tokenized.
    Error,
}

impl ParseResult {
    /// The status character printed for this outcome in compact mode.
    pub fn compact_display(&self) -> (c: char)
        ensures
            c == match self {
                ParseResult::Unambiguous => '-',
                ParseResult::Ambiguous => '.',
                ParseResult::Partial => 'X',
                ParseResult::Error => 'L',
            },
    {
        match self {
            ParseResult::Unambiguous => '-',
            ParseResult::Ambiguous => '.',
            ParseResult::Partial => 'X',
            ParseResult::Error => 'L',
        }
    }
}

/// One file's parse attempt, as handed to the classifier: either lexing
/// failed, or parsing consumed only a prefix, or a full parse forest exists
/// with the handle of its root node.
pub enum ParseAttempt {
    LexFailure,
    Partial,
    Full(Forest, usize),
}

impl ParseAttempt {
    /// The attempt is well formed: a full parse carries a well-formed
    /// forest and a valid root handle.
    pub open spec fn wf(self) -> bool {
        match self {
            ParseAttempt::Full(f, root) => f.wf() && f.valid(root as int),
            _ => true,
        }
    }
}

/// What `classify` must answer: lex failures and partial parses map to
/// their own outcomes; a full parse is unambiguous exactly when no node
/// reachable from its root is ambiguous.
pub open spec fn classify_spec(attempt: ParseAttempt) -> ParseResult {
    match attempt {
        ParseAttempt::LexFailure => ParseResult::Error,
        ParseAttempt::Partial => ParseResult::Partial,
        ParseAttempt::Full(f, root) => if f.clean(root as int) {
            ParseResult::Unambiguous
        } else {
            ParseResult::Ambiguous
        },
    }
}

/// Classify one file's parse attempt.  Pure and total: the outcome is a
/// function of the attempt alone, so re-running classification on the same
/// attempt yields the same outcome.
pub fn classify(attempt: &ParseAttempt) -> (r: ParseResult)
    requires
        attempt.wf(),
    ensures
        r == classify_spec(*attempt),
{
    match attempt {
        ParseAttempt::LexFailure => ParseResult::Error,
        ParseAttempt::Partial => ParseResult::Partial,
        ParseAttempt::Full(f, root) => {
            match ambiguity_check(f, *root) {
                Ok(()) => ParseResult::Unambiguous,
                Err(_) => ParseResult::Ambiguous,
            }
        },
    }
}

} // verus!
