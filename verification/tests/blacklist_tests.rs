use grammar_coverage::{ends_with, ends_with_components, eligible_indices, is_rs_path, Blacklist};

fn chars(s: &str) -> Vec<char> {
    s.chars().collect()
}

#[test]
fn suffix_membership() {
    assert!(ends_with(&chars("libcore/unicode/tables.rs"), &chars("tables.rs")));
    assert!(ends_with(&chars("a"), &chars("")));
    assert!(!ends_with(&chars("tables.rs"), &chars("libcore/unicode/tables.rs")));
    assert!(!ends_with(&chars("a/b.rs"), &chars("c.rs")));
}

#[test]
fn component_suffix_needs_a_boundary() {
    assert!(ends_with_components(&chars("unicode/tables.rs"), &chars("tables.rs")));
    assert!(ends_with_components(&chars("tables.rs"), &chars("tables.rs")));
    assert!(!ends_with_components(&chars("notables.rs"), &chars("tables.rs")));
    assert!(!ends_with_components(&chars("a.rs"), &chars("s")));
}

#[test]
fn blacklist_matches_any_listed_suffix() {
    let bl = Blacklist {
        paths: vec![chars("issues/issue-29466.rs"), chars("tables.rs")],
    };
    assert!(bl.is_blacklisted(&chars("libcore/unicode/tables.rs")));
    assert!(bl.is_blacklisted(&chars("rust/src/test/issues/issue-29466.rs")));
    assert!(!bl.is_blacklisted(&chars("rust/src/lib.rs")));
}

#[test]
fn blacklist_matches_whole_components_only() {
    let bl = Blacklist {
        paths: vec![chars("s"), chars("tables.rs")],
    };
    // a listed suffix matching mid-component excludes nothing
    assert!(!bl.is_blacklisted(&chars("a.rs")));
    assert!(!bl.is_blacklisted(&chars("unicode/notables.rs")));
    assert!(bl.is_blacklisted(&chars("dir/s")));
}

#[test]
fn empty_blacklist_excludes_nothing() {
    let bl = Blacklist::empty();
    assert!(!bl.is_blacklisted(&chars("anything.rs")));
}

#[test]
fn rs_extension_check() {
    assert!(is_rs_path(&chars("src/main.rs")));
    assert!(is_rs_path(&chars("a.rs")));
    assert!(!is_rs_path(&chars(".rs")));
    assert!(!is_rs_path(&chars("dir/.rs")));
    assert!(!is_rs_path(&chars("notes.txt")));
    assert!(!is_rs_path(&chars("rs")));
}

#[test]
fn blacklisted_file_never_selected() {
    let bl = Blacklist {
        paths: vec![chars("tables.rs")],
    };
    let paths = vec![
        chars("a/x.rs"),
        chars("libcore/unicode/tables.rs"),
        chars("b/readme.txt"),
        chars("c/z.rs"),
    ];
    let selected = eligible_indices(&paths, &bl);
    assert_eq!(selected, vec![0, 3]);
}

#[test]
fn selection_keeps_enumeration_order() {
    let bl = Blacklist::empty();
    let paths = vec![chars("b.rs"), chars("a.rs"), chars("c.rs")];
    let selected = eligible_indices(&paths, &bl);
    assert_eq!(selected, vec![0, 1, 2]);
}
