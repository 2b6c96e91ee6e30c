use grammar_coverage::{ambiguity_check, ambiguity_check_visits, Forest, NodeData};

fn forest(nodes: Vec<NodeData>) -> Forest {
    Forest::from_nodes(nodes).expect("well-formed forest")
}

#[test]
fn no_choice_or_split_always_clean() {
    // opaque leaf, alias chain and an optional: no fault possible
    let f = forest(vec![
        NodeData::Alias(1),
        NodeData::Opt(Some(2)),
        NodeData::Opaque,
        NodeData::Opt(None),
    ]);
    assert!(ambiguity_check(&f, 0).is_ok());
    assert!(ambiguity_check(&f, 3).is_ok());
}

#[test]
fn single_choice_is_clean() {
    let f = forest(vec![NodeData::Choice(vec![1]), NodeData::Opaque]);
    assert!(ambiguity_check(&f, 0).is_ok());
}

#[test]
fn multiple_choice_faults() {
    let f = forest(vec![
        NodeData::Choice(vec![1, 2]),
        NodeData::Opaque,
        NodeData::Opaque,
    ]);
    assert!(ambiguity_check(&f, 0).is_err());
}

#[test]
fn multiple_split_faults() {
    let f = forest(vec![
        NodeData::Split(vec![(1, 2), (2, 1)]),
        NodeData::Opaque,
        NodeData::Opaque,
    ]);
    assert!(ambiguity_check(&f, 0).is_err());
}

#[test]
fn deep_ambiguity_found() {
    // fault sits behind an alias and a single split
    let f = forest(vec![
        NodeData::Alias(1),
        NodeData::Split(vec![(2, 3)]),
        NodeData::Opaque,
        NodeData::Choice(vec![2, 4]),
        NodeData::Opaque,
    ]);
    assert!(ambiguity_check(&f, 0).is_err());
}

#[test]
fn shared_child_visited_once() {
    // two different parents alias the same child: four nodes, four visits
    let f = forest(vec![
        NodeData::Split(vec![(1, 2)]),
        NodeData::Alias(3),
        NodeData::Alias(3),
        NodeData::Opaque,
    ]);
    let (result, visits) = ambiguity_check_visits(&f, 0);
    assert!(result.is_ok());
    assert_eq!(visits, 4);
}

#[test]
fn unreachable_fault_is_ignored() {
    // the ambiguous node exists but is not reachable from the root
    let f = forest(vec![
        NodeData::Opaque,
        NodeData::Choice(vec![0, 0]),
    ]);
    assert!(ambiguity_check(&f, 0).is_ok());
    assert!(ambiguity_check(&f, 1).is_err());
}

#[test]
fn cyclic_forest_terminates() {
    let f = forest(vec![NodeData::Alias(1), NodeData::Alias(0)]);
    assert!(ambiguity_check(&f, 0).is_ok());
}

#[test]
fn rerun_gives_same_result() {
    let ambiguous = forest(vec![
        NodeData::Choice(vec![1, 2]),
        NodeData::Opaque,
        NodeData::Opaque,
    ]);
    let clean = forest(vec![NodeData::Alias(1), NodeData::Opaque]);
    assert_eq!(ambiguity_check(&ambiguous, 0), ambiguity_check(&ambiguous, 0));
    assert_eq!(ambiguity_check(&clean, 0), ambiguity_check(&clean, 0));
}

#[test]
fn malformed_forests_rejected() {
    assert!(Forest::from_nodes(vec![NodeData::Alias(1)]).is_none());
    assert!(Forest::from_nodes(vec![NodeData::Choice(vec![])]).is_none());
    assert!(Forest::from_nodes(vec![NodeData::Split(vec![])]).is_none());
    assert!(Forest::from_nodes(vec![NodeData::Opt(Some(7))]).is_none());
}
