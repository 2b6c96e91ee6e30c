use grammar_coverage::{canonicalize, remove_groups_exec, replace_fixed_exec, snapshot_check};

fn chars(s: &str) -> Vec<char> {
    s.chars().collect()
}

fn canon_str(s: &str) -> String {
    canonicalize(&chars(s)).into_iter().collect()
}

#[test]
fn span_ranges_collapse_to_placeholder() {
    assert_eq!(canon_str("Span..Span"), "_");
    assert_eq!(canon_str("a Span..Span b Span..Span"), "a _ b _");
}

#[test]
fn arrow_prefix_dropped() {
    assert_eq!(canon_str("_ => x"), "x");
    assert_eq!(canon_str("keep _ => it"), "keep it");
}

#[test]
fn empty_groups_removed() {
    assert_eq!(canon_str("x ( _ )"), "x ");
    assert_eq!(canon_str("(\n    _,\n)"), "");
    assert_eq!(canon_str("(_)"), "(_)");
}

#[test]
fn rewrites_cascade_to_a_fixed_point() {
    // the arrow rewrite exposes a span range, which a later round collapses
    assert_eq!(canon_str("A Span.._ => Span B"), "A _ B");
}

#[test]
fn canonicalization_is_idempotent() {
    let samples = [
        "Ok(\n    Expr Span..Span => (\n        _,\n    ),\n)",
        "A Span.._ => Span B",
        "plain text",
        "",
        "( _ ) ( _ )",
    ];
    for s in samples {
        let once = canonicalize(&chars(s));
        let twice = canonicalize(&once);
        assert_eq!(once, twice);
    }
}

#[test]
fn replace_fixed_scans_left_to_right() {
    let out = replace_fixed_exec(&chars("aaa"), &chars("aa"), &chars("b"));
    assert_eq!(out, chars("ba"));
}

#[test]
fn remove_groups_requires_whitespace() {
    assert_eq!(remove_groups_exec(&chars("( _ , x )")), chars("( _ , x )"));
    assert_eq!(remove_groups_exec(&chars("(  _,  )")), chars(""));
}

#[test]
fn snapshot_comparison_uses_canonical_text() {
    assert!(snapshot_check(&chars("f ( _ ) Span..Span"), &chars("f  _")));
    assert!(!snapshot_check(&chars("f ( _ ) Span..Span"), &chars("f ( _ ) Span..Span")));
}
