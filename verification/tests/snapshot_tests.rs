use grammar_coverage::{all_passed, exit_status, find_production, production_prefix};

fn chars(s: &str) -> Vec<char> {
    s.chars().collect()
}

#[test]
fn production_from_file_name() {
    assert_eq!(production_prefix(&chars("Expr.precedence.input")), chars("Expr"));
    assert_eq!(production_prefix(&chars("ModuleContents.input")), chars("ModuleContents"));
    assert_eq!(production_prefix(&chars("Abi")), chars("Abi"));
    assert_eq!(production_prefix(&chars(".input")), chars(""));
}

#[test]
fn production_lookup() {
    let table = vec![chars("Abi"), chars("Expr"), chars("Pat")];
    assert_eq!(find_production(&table, &chars("Expr")), Some(1));
    assert_eq!(find_production(&table, &chars("Abi")), Some(0));
    assert_eq!(find_production(&table, &chars("Unknown")), None);
}

#[test]
fn pass_fail_collection() {
    assert!(all_passed(&vec![]));
    assert!(all_passed(&vec![true, true]));
    assert!(!all_passed(&vec![true, false, true]));
}

#[test]
fn exit_status_zero_only_when_all_pass() {
    assert_eq!(exit_status(&vec![true, true]), 0);
    assert_eq!(exit_status(&vec![]), 0);
    assert_eq!(exit_status(&vec![true, false]), 1);
}
