use grammar_coverage::{counters_of_outcome, tally_outcomes, Counters, ParseResult};

#[test]
fn corpus_of_three_files() {
    // one unambiguous, one partial, one lex failure
    let outcomes = vec![
        ParseResult::Unambiguous,
        ParseResult::Partial,
        ParseResult::Error,
    ];
    let c = tally_outcomes(&outcomes);
    assert_eq!(c.total_count, 3);
    assert_eq!(c.unambiguous_count, 1);
    assert_eq!(c.ambiguous_count, 0);
    assert_eq!(c.too_short_count, 1);
    assert_eq!(c.no_parse_count, 1);
}

#[test]
fn total_equals_sum_of_outcomes() {
    let outcomes = vec![
        ParseResult::Ambiguous,
        ParseResult::Ambiguous,
        ParseResult::Unambiguous,
        ParseResult::Error,
        ParseResult::Partial,
        ParseResult::Partial,
        ParseResult::Partial,
    ];
    let c = tally_outcomes(&outcomes);
    assert_eq!(
        c.total_count,
        c.unambiguous_count + c.ambiguous_count + c.too_short_count + c.no_parse_count
    );
    assert_eq!(c.total_count, 7);
}

#[test]
fn merge_order_does_not_matter() {
    let a = counters_of_outcome(&ParseResult::Unambiguous);
    let b = counters_of_outcome(&ParseResult::Partial);
    let c = counters_of_outcome(&ParseResult::Error);
    let left = a.add(&b).add(&c);
    let right = a.add(&b.add(&c));
    let swapped = c.add(&b).add(&a);
    for m in [&left, &right, &swapped] {
        assert_eq!(m.total_count, 3);
        assert_eq!(m.unambiguous_count, 1);
        assert_eq!(m.ambiguous_count, 0);
        assert_eq!(m.too_short_count, 1);
        assert_eq!(m.no_parse_count, 1);
    }
}

#[test]
fn zero_is_identity() {
    let zero = Counters::new();
    let one = counters_of_outcome(&ParseResult::Ambiguous);
    let merged = one.add(&zero);
    assert_eq!(merged.total_count, 1);
    assert_eq!(merged.ambiguous_count, 1);
    assert_eq!(merged.unambiguous_count, 0);
    let merged2 = zero.add(&one);
    assert_eq!(merged2.total_count, 1);
    assert_eq!(merged2.ambiguous_count, 1);
}

#[test]
fn empty_corpus_tallies_to_zero() {
    let c = tally_outcomes(&vec![]);
    assert_eq!(c.total_count, 0);
    assert_eq!(c.unambiguous_count, 0);
    assert_eq!(c.ambiguous_count, 0);
    assert_eq!(c.too_short_count, 0);
    assert_eq!(c.no_parse_count, 0);
}
