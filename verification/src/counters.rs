//! Aggregate statistics for a corpus run: five non-negative counts forming a
//! commutative monoid under pointwise addition with identity all-zero.

use vstd::prelude::*;

use crate::outcome::ParseResult;

verus! {

/// How many elements of `s` equal the outcome `o`.
pub open spec fn count_of(s: Seq<ParseResult>, o: ParseResult) -> int
    decreases s.len(),
{
    if s.len() == 0 {
        0
    } else {
        count_of(s.drop_last(), o) + if s.last() == o {
            1int
        } else {
            0int
        }
    }
}

/// Law: every element is exactly one of the four outcomes, so the four
/// per-outcome counts of any outcome sequence sum to its length.
pub proof fn lemma_counts_sum(s: Seq<ParseResult>)
    ensures
        count_of(s, ParseResult::Unambiguous) + count_of(s, ParseResult::Ambiguous) + count_of(
            s,
            ParseResult::Partial,
        ) + count_of(s, ParseResult::Error) == s.len(),
    decreases s.len(),
{
    if s.len() > 0 {
        lemma_counts_sum(s.drop_last());
    }
}

/// Counts are never negative and never exceed the sequence length.
pub proof fn lemma_count_bounds(s: Seq<ParseResult>, o: ParseResult)
    ensures
        0 <= count_of(s, o) <= s.len(),
    decreases s.len(),
{
    if s.len() > 0 {
        lemma_count_bounds(s.drop_last(), o);
    }
}

/// Per-corpus aggregate counts: how many files were tested in total and how
/// many fell into each of the four per-file outcomes.
#[derive(Clone, Copy, Debug)]
pub struct Counters {
    pub total_count: u64,
    pub unambiguous_count: u64,
    pub ambiguous_count: u64,
    pub too_short_count: u64,
    pub no_parse_count: u64,
}

impl Counters {
    /// The mathematical model of a `Counters` value: its five fields as
    /// unbounded integers, in field order.
    pub open spec fn model(self) -> (int, int, int, int, int) {
        (
            self.total_count as int,
            self.unambiguous_count as int,
            self.ambiguous_count as int,
            self.too_short_count as int,
            self.no_parse_count as int,
        )
    }

    /// A counters value is consistent when the total equals the sum of the
    /// four outcome counts.
    pub open spec fn consistent(self) -> bool {
        self.total_count == self.unambiguous_count + self.ambiguous_count
            + self.too_short_count + self.no_parse_count
    }

    /// The all-zero identity of the counters monoid.
    pub fn new() -> (r: Counters)
        ensures
            r.model() == spec_zero(),
            r.consistent(),
    {
        Counters {
            total_count: 0,
            unambiguous_count: 0,
            ambiguous_count: 0,
            too_short_count: 0,
            no_parse_count: 0,
        }
    }

    /// Pointwise addition of two counters values.
    pub fn add(&self, other: &Counters) -> (r: Counters)
        requires
            self.total_count + other.total_count <= u64::MAX,
            self.unambiguous_count + other.unambiguous_count <= u64::MAX,
            self.ambiguous_count + other.ambiguous_count <= u64::MAX,
            self.too_short_count + other.too_short_count <= u64::MAX,
            self.no_parse_count + other.no_parse_count <= u64::MAX,
        ensures
            r.model() == spec_add(self.model(), other.model()),
            self.consistent() && other.consistent() ==> r.consistent(),
    {
        Counters {
            total_count: self.total_count + other.total_count,
            unambiguous_count: self.unambiguous_count + other.unambiguous_count,
            ambiguous_count: self.ambiguous_count + other.ambiguous_count,
            too_short_count: self.too_short_count + other.too_short_count,
            no_parse_count: self.no_parse_count + other.no_parse_count,
        }
    }
}

/// The counters contribution of a single outcome: total one, and one in
/// the field of that outcome.
pub fn counters_of_outcome(o: &ParseResult) -> (r: Counters)
    ensures
        r.model() == spec_counters_of_outcome(*o),
        r.consistent(),
{
    let mut c = Counters::new();
    c.total_count = 1;
    match o {
        ParseResult::Unambiguous => c.unambiguous_count = 1,
        ParseResult::Ambiguous => c.ambiguous_count = 1,
        ParseResult::Partial => c.too_short_count = 1,
        ParseResult::Error => c.no_parse_count = 1,
    }
    c
}

/// Model of the counters contribution of a single outcome.
pub open spec fn spec_counters_of_outcome(o: ParseResult) -> (int, int, int, int, int) {
    (
        1,
        if o == ParseResult::Unambiguous {
            1int
        } else {
            0int
        },
        if o == ParseResult::Ambiguous {
            1int
        } else {
            0int
        },
        if o == ParseResult::Partial {
            1int
        } else {
            0int
        },
        if o == ParseResult::Error {
            1int
        } else {
            0int
        },
    )
}

/// Fold a sequence of per-file outcomes into corpus counters.  The total
/// equals the number of outcomes and each field counts its own outcome,
/// whatever order the outcomes arrived in.
pub fn tally_outcomes(outcomes: &Vec<ParseResult>) -> (r: Counters)
    requires
        outcomes@.len() <= u64::MAX,
    ensures
        r.total_count as int == outcomes@.len(),
        r.unambiguous_count as int == count_of(outcomes@, ParseResult::Unambiguous),
        r.ambiguous_count as int == count_of(outcomes@, ParseResult::Ambiguous),
        r.too_short_count as int == count_of(outcomes@, ParseResult::Partial),
        r.no_parse_count as int == count_of(outcomes@, ParseResult::Error),
        r.consistent(),
{
    let mut acc = Counters::new();
    let mut i: usize = 0;
    while i < outcomes.len()
        invariant
            i <= outcomes@.len(),
            outcomes@.len() <= u64::MAX,
            acc.total_count as int == i as int,
            acc.unambiguous_count as int == count_of(
                outcomes@.take(i as int),
                ParseResult::Unambiguous,
            ),
            acc.ambiguous_count as int == count_of(outcomes@.take(i as int), ParseResult::Ambiguous),
            acc.too_short_count as int == count_of(outcomes@.take(i as int), ParseResult::Partial),
            acc.no_parse_count as int == count_of(outcomes@.take(i as int), ParseResult::Error),
            acc.consistent(),
        decreases outcomes@.len() - i,
    {
        proof {
            lemma_count_bounds(outcomes@.take(i as int), ParseResult::Unambiguous);
            lemma_count_bounds(outcomes@.take(i as int), ParseResult::Ambiguous);
            lemma_count_bounds(outcomes@.take(i as int), ParseResult::Partial);
            lemma_count_bounds(outcomes@.take(i as int), ParseResult::Error);
        }
        let one = counters_of_outcome(&outcomes[i]);
        let next = acc.add(&one);
        proof {
            assert(outcomes@.take(i as int + 1).drop_last() =~= outcomes@.take(i as int));
            assert(outcomes@.take(i as int + 1).last() == outcomes@[i as int]);
        }
        acc = next;
        i += 1;
    }
    proof {
        assert(outcomes@.take(outcomes@.len() as int) =~= outcomes@);
    }
    acc
}

impl Default for Counters {
    /// The default counters value is the monoid identity.
    fn default() -> (r: Counters)
        ensures
            r.model() == spec_zero(),
            r.consistent(),
    {
        Counters::new()
    }
}

/// Pointwise addition on counters models.
pub open spec fn spec_add(
    a: (int, int, int, int, int),
    b: (int, int, int, int, int),
) -> (int, int, int, int, int) {
    (a.0 + b.0, a.1 + b.1, a.2 + b.2, a.3 + b.3, a.4 + b.4)
}

/// The identity element of the counters monoid.
pub open spec fn spec_zero() -> (int, int, int, int, int) {
    (0, 0, 0, 0, 0)
}

/// Law: counters merge is commutative, so per-file results may be combined
/// in whatever order they complete.
pub proof fn lemma_add_commutative(a: (int, int, int, int, int), b: (int, int, int, int, int))
    ensures
        spec_add(a, b) == spec_add(b, a),
{
}

/// Law: counters merge is associative, so per-file results may be grouped
/// arbitrarily by a parallel reduction.
pub proof fn lemma_add_associative(
    a: (int, int, int, int, int),
    b: (int, int, int, int, int),
    c: (int, int, int, int, int),
)
    ensures
        spec_add(spec_add(a, b), c) == spec_add(a, spec_add(b, c)),
{
}

/// Law: the all-zero counters value is the identity of the merge.
pub proof fn lemma_add_identity(a: (int, int, int, int, int))
    ensures
        spec_add(a, spec_zero()) == a,
        spec_add(spec_zero(), a) == a,
{
}

} // verus!
