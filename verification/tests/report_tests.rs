use grammar_coverage::{
    counters_of_outcome, parse_result_to_str, print_statistics, report_file_result, sort_expected,
    tally_outcomes, u64_to_dec, FileReport, ParseResult,
};

fn chars(s: &str) -> Vec<char> {
    s.chars().collect()
}

fn string(v: Vec<char>) -> String {
    v.into_iter().collect()
}

#[test]
fn decimal_rendering() {
    assert_eq!(u64_to_dec(0), chars("0"));
    assert_eq!(u64_to_dec(7), chars("7"));
    assert_eq!(u64_to_dec(1234), chars("1234"));
    assert_eq!(u64_to_dec(u64::MAX), chars("18446744073709551615"));
}

#[test]
fn sort_expected_orders_names() {
    let sorted = sort_expected(&vec![chars("beta"), chars("alpha"), chars("alpha")]);
    assert_eq!(sorted, vec![chars("alpha"), chars("alpha"), chars("beta")]);
}

#[test]
fn parse_result_rendering() {
    assert_eq!(string(parse_result_to_str(&Ok(chars("X")))), "Ok(\n    X,\n)");
    assert_eq!(
        string(parse_result_to_str(&Ok(chars("A\nB")))),
        "Ok(\n    A\n    B,\n)"
    );
    assert_eq!(string(parse_result_to_str(&Err(chars("bad")))), "Err(\n    bad,\n)");
}

#[test]
fn report_full_parse() {
    let ok = report_file_result(None, &None, &FileReport::Parsed { ambiguous: false });
    assert_eq!(string(ok), "OK\n");
    let amb = report_file_result(None, &None, &FileReport::Parsed { ambiguous: true });
    assert_eq!(string(amb), "OK (ambiguous)\n");
}

#[test]
fn report_partial_parse_with_expected_tokens() {
    // names arrive in parser order; the report prints them sorted
    let expected = vec![chars("ident"), chars("brace")];
    let line = report_file_result(
        Some(5),
        &Some(chars("src/lib.rs")),
        &FileReport::Partial {
            location: chars("(unknown location)"),
            expected,
        },
    );
    assert_eq!(
        string(line),
        "5ms: src/lib.rs: FAIL after (unknown location)\nExpected: [brace, ident]\n"
    );
}

#[test]
fn equal_expected_sets_render_identically() {
    let report_of = |names: Vec<Vec<char>>| {
        string(report_file_result(
            None,
            &None,
            &FileReport::Partial {
                location: chars("(unknown location)"),
                expected: names,
            },
        ))
    };
    let one = report_of(vec![chars("b"), chars("a"), chars("c")]);
    let other = report_of(vec![chars("c"), chars("b"), chars("a")]);
    assert_eq!(one, other);
    assert_eq!(one, "FAIL after (unknown location)\nExpected: [a, b, c]\n");
}

#[test]
fn report_lex_failure() {
    let line = report_file_result(
        None,
        &Some(chars("bad.rs")),
        &FileReport::LexFail {
            message: chars("unterminated string"),
        },
    );
    assert_eq!(string(line), "bad.rs: FAIL (unterminated string)\n");
}

#[test]
fn statistics_summary_text() {
    let outcomes = vec![
        ParseResult::Unambiguous,
        ParseResult::Partial,
        ParseResult::Error,
    ];
    let c = tally_outcomes(&outcomes);
    let text = string(print_statistics(&c));
    assert_eq!(
        text,
        "\nOut of 3 Rust files tested:\n\
         * 1 parsed fully and unambiguously\n\
         * 0 parsed fully (but ambiguously)\n\
         * 1 parsed partially (only a prefix)\n\
         * 1 didn't parse at all (lexer error?)\n"
    );
}

#[test]
fn status_characters() {
    assert_eq!(ParseResult::Unambiguous.compact_display(), '-');
    assert_eq!(ParseResult::Ambiguous.compact_display(), '.');
    assert_eq!(ParseResult::Partial.compact_display(), 'X');
    assert_eq!(ParseResult::Error.compact_display(), 'L');
    let one = counters_of_outcome(&ParseResult::Unambiguous);
    assert_eq!(one.total_count, 1);
}
