use grammar_coverage::{classify, tokenize_source, Forest, NodeData, ParseAttempt, ParseResult};

#[test]
fn lex_failure_classified_first() {
    assert_eq!(classify(&ParseAttempt::LexFailure), ParseResult::Error);
}

#[test]
fn partial_parse_classified() {
    assert_eq!(classify(&ParseAttempt::Partial), ParseResult::Partial);
}

#[test]
fn full_single_derivation_is_unambiguous() {
    // the shape of a trivial item parse: one derivation everywhere
    let f = Forest::from_nodes(vec![
        NodeData::Choice(vec![1]),
        NodeData::Split(vec![(2, 3)]),
        NodeData::Opaque,
        NodeData::Opaque,
    ])
    .unwrap();
    assert_eq!(classify(&ParseAttempt::Full(f, 0)), ParseResult::Unambiguous);
}

#[test]
fn overlapping_alternatives_are_ambiguous() {
    // a production with two alternatives both matching the same span
    let f = Forest::from_nodes(vec![
        NodeData::Choice(vec![1, 2]),
        NodeData::Opaque,
        NodeData::Opaque,
    ])
    .unwrap();
    assert_eq!(classify(&ParseAttempt::Full(f, 0)), ParseResult::Ambiguous);
}

#[test]
fn tokenization_of_plain_item_succeeds() {
    assert!(tokenize_source("fn f() {}").is_ok());
    assert!(tokenize_source("").is_ok());
}

#[test]
fn unterminated_string_is_a_lex_failure() {
    match tokenize_source("fn f() { \"unterminated }") {
        Err(failure) => assert_eq!(failure.outcome(), ParseResult::Error),
        Ok(_) => panic!("expected a lex failure"),
    }
}

#[test]
fn lex_failure_carries_the_lexer_error() {
    match tokenize_source("fn f() { \"unterminated }") {
        Err(failure) => assert!(!format!("{:?}", failure.error).is_empty()),
        Ok(_) => panic!("expected a lex failure"),
    }
}

#[test]
fn unbalanced_delimiter_is_a_lex_failure() {
    // an unclosed group never reaches the parser: it fails tokenization
    match tokenize_source("fn f(") {
        Err(failure) => assert_eq!(failure.outcome(), ParseResult::Error),
        Ok(_) => panic!("expected a lex failure"),
    }
}
