//! Corpus-scale correctness harness core for a grammar/parser: ambiguity
//! detection over a parse forest, per-file outcome classification and
//! counter aggregation, blacklist filtering of the corpus, and snapshot
//! canonicalization and comparison.

use vstd::prelude::*;

pub mod blacklist;
pub mod canon;
pub mod checker;
pub mod counters;
pub mod forest;
pub mod lex;
pub mod literals;
pub mod outcome;
pub mod report;
pub mod snapshot;
pub mod sorting;
pub mod textops;

pub use blacklist::{ends_with, ends_with_components, eligible_indices, is_rs_path, Blacklist};
pub use canon::{canonicalize, remove_groups_exec, replace_fixed_exec};
pub use checker::{ambiguity_check, ambiguity_check_visits};
pub use counters::{counters_of_outcome, tally_outcomes, Counters};
pub use forest::{AmbiguityFault, Forest, NodeData, NodeShape};
pub use lex::{tokenize_source, LexFailure};
pub use outcome::{classify, ParseAttempt, ParseResult};
pub use report::{
    indent_chars, join_expected, parse_result_to_str, print_statistics, report_file_result,
    FileReport,
};
pub use snapshot::{all_passed, exit_status, find_production, production_prefix, snapshot_check};
pub use sorting::{chars_le, sort_expected};
pub use textops::{append_chars, chars_eq, copy_chars, u64_to_dec};

verus! {

} // verus!
