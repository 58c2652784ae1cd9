use tap_parser::DirectiveKind;
use tap_parser::Error;
use tap_parser::NumberError;
use tap_parser::TapDirective;
use tap_parser::TapParser;
use tap_parser::TapPlan;
use tap_parser::TapStatement;
use tap_parser::TapSubDocument;
use tap_parser::TapTest;

fn plan(count: usize, reason: Option<&str>) -> TapStatement {
    TapStatement::Plan(TapPlan { count, reason: reason.map(|s| s.to_string()) })
}

fn test_point(result: bool, number: Option<usize>, desc: Option<&str>) -> TapTest {
    TapTest {
        result,
        number,
        desc: desc.map(|s| s.to_string()),
        directive: None,
        yaml: Vec::new(),
    }
}

fn point(result: bool, number: Option<usize>, desc: Option<&str>) -> TapStatement {
    TapStatement::TestPoint(test_point(result, number, desc))
}

fn directive_point(
    result: bool,
    number: Option<usize>,
    desc: Option<&str>,
    kind: DirectiveKind,
    reason: Option<&str>,
) -> TapStatement {
    TapStatement::TestPoint(TapTest {
        result,
        number,
        desc: desc.map(|s| s.to_string()),
        directive: Some(TapDirective { kind, reason: reason.map(|s| s.to_string()) }),
        yaml: Vec::new(),
    })
}

// ---------------------------------------------------------------------------
// Version gate
// ---------------------------------------------------------------------------

#[test]
fn lib_no_version() {
    let mut parser = TapParser::new();
    assert_eq!(parser.parse("1..0\n"), Err(Error::NoVersion));
}

#[test]
fn test_no_version() {
    let mut parser = TapParser::new();
    assert_eq!(parser.parse("1..0\n"), Err(Error::NoVersion));
    assert_eq!(parser.statements(), vec![]);
}

#[test]
fn empty_input() {
    let mut parser = TapParser::new();
    assert_eq!(parser.parse(""), Err(Error::NoVersion));
    assert_eq!(parser.statements(), vec![]);
}

#[test]
fn eod() {
    let mut parser = TapParser::new();
    assert_eq!(parser.parse("TAP version 14"), Err(Error::UnexpectedEOD));
    assert_eq!(parser.statements(), vec![]);
}

#[test]
fn unsupported_version() {
    let mut parser = TapParser::new();
    assert_eq!(
        parser.parse("TAP version 42\n"),
        Err(Error::InvalidVersion("42".to_string()))
    );
    assert_eq!(parser.statements(), vec![]);
}

#[test]
fn version_without_space() {
    // the version line is the literal prefix plus the trimmed remainder
    let mut parser = TapParser::new();
    assert_eq!(parser.parse("TAP version14\n1..0\n"), Ok(vec![plan(0, None)]));
}

#[test]
fn with_default() {
    let mut parser: TapParser = Default::default();
    assert_eq!(
        parser.parse("TAP version 14\n1..0\n"),
        Ok(vec![plan(0, None)])
    );
}

#[test]
fn crlf_line_endings() {
    let mut parser = TapParser::new();
    assert_eq!(
        parser.parse("TAP version 14\r\n1..1\r\nok 1 - fine\r\n"),
        Ok(vec![plan(1, None), point(true, Some(1), Some("fine"))])
    );
}

// ---------------------------------------------------------------------------
// Plans
// ---------------------------------------------------------------------------

#[test]
fn empty() {
    let mut parser = TapParser::new();
    assert_eq!(parser.parse("TAP version 14\n1..0\n"), Ok(vec![plan(0, None)]));
}

#[test]
fn empty_with_reason() {
    let mut parser = TapParser::new();
    assert_eq!(
        parser.parse("TAP version 14\n1..0 # no tests to run\n"),
        Ok(vec![plan(0, Some("no tests to run"))])
    );
}

#[test]
fn duplicate_plan() {
    let mut parser = TapParser::new();
    assert_eq!(
        parser.parse("TAP version 14\n1..1\n1..1\n"),
        Err(Error::DuplicatedPlan)
    );
    assert_eq!(parser.statements(), vec![plan(1, None)]);
}

#[test]
fn plan_at_the_end() {
    let mut parser = TapParser::new();
    assert_eq!(
        parser.parse("TAP version 14\nok - this is a dash description - with a dash!\n1..1\n"),
        Ok(vec![
            point(true, None, Some("this is a dash description - with a dash!")),
            plan(1, None),
        ])
    );
}

#[test]
fn trailing_lines() {
    let document = "TAP version 14\nok 1 - this is a success\n1..1\nThese are trailing lines, and are such are ignored\n";
    let mut parser = TapParser::new();
    assert_eq!(
        parser.parse(document),
        Ok(vec![point(true, Some(1), Some("this is a success")), plan(1, None)])
    );
}

#[test]
fn trailing_empty() {
    // the plan is the first body line here, so it does not close the
    // document and the trailing line is refused as unknown
    let document = "TAP version 14\n1..0\nThese are trailing lines, and are such are ignored\n";
    let mut parser = TapParser::new();
    assert_eq!(
        parser.parse(document),
        Err(Error::UnknownLine(
            "These are trailing lines, and are such are ignored".to_string()
        ))
    );
    assert_eq!(parser.statements(), vec![plan(0, None)]);
}

#[test]
fn trailing_lines_after_yaml() {
    // the plan came first, so after the diagnostic block closes the
    // trailing line is refused as unknown
    let document = "TAP version 14\n1..1\nok 1 - this is a success\n  ---\n  ...\nThese are trailing lines, and are such are ignored\n";
    let mut parser = TapParser::new();
    assert_eq!(
        parser.parse(document),
        Err(Error::UnknownLine(
            "These are trailing lines, and are such are ignored".to_string()
        ))
    );
    assert_eq!(
        parser.statements(),
        vec![plan(1, None), point(true, Some(1), Some("this is a success"))]
    );
}

#[test]
fn plan_count_not_a_number() {
    let mut parser = TapParser::new();
    assert_eq!(
        parser.parse("TAP version 14\n1..x\n"),
        Err(Error::InvalidNumber(NumberError::InvalidDigit))
    );
}

#[test]
fn plan_count_empty() {
    let mut parser = TapParser::new();
    assert_eq!(
        parser.parse("TAP version 14\n1..\n"),
        Err(Error::InvalidNumber(NumberError::Empty))
    );
}

#[test]
fn plan_count_overflow() {
    let mut parser = TapParser::new();
    assert_eq!(
        parser.parse("TAP version 14\n1..99999999999999999999999\n"),
        Err(Error::InvalidNumber(NumberError::Overflow))
    );
}

// ---------------------------------------------------------------------------
// Result lines
// ---------------------------------------------------------------------------

#[test]
fn single_sucess() {
    let mut parser = TapParser::new();
    assert_eq!(
        parser.parse("TAP version 14\n1..1\nok 1 - this is a success\n"),
        Ok(vec![plan(1, None), point(true, Some(1), Some("this is a success"))])
    );
}

#[test]
fn two_points() {
    let document = "TAP version 14\n1..1\nok 1 - success\nnot ok 2 - fail";
    let mut parser = TapParser::new();
    assert_eq!(
        parser.parse(document),
        Ok(vec![
            plan(1, None),
            point(true, Some(1), Some("success")),
            point(false, Some(2), Some("fail")),
        ])
    );
}

#[test]
fn single_sucess_bare() {
    let mut parser = TapParser::new();
    assert_eq!(
        parser.parse("TAP version 14\n1..1\nok\n"),
        Ok(vec![plan(1, None), point(true, None, None)])
    );
}

#[test]
fn single_sucess_num_only() {
    let mut parser = TapParser::new();
    assert_eq!(
        parser.parse("TAP version 14\n1..1\nok 1\n"),
        Ok(vec![plan(1, None), point(true, Some(1), None)])
    );
}

#[test]
fn single_sucess_num_bare_desc() {
    let mut parser = TapParser::new();
    assert_eq!(
        parser.parse("TAP version 14\n1..1\nok 1 this is a bare description - with a dash!\n"),
        Ok(vec![
            plan(1, None),
            point(true, Some(1), Some("this is a bare description - with a dash!")),
        ])
    );
}

#[test]
fn single_sucess_no_num_bare_desc() {
    let mut parser = TapParser::new();
    assert_eq!(
        parser.parse("TAP version 14\n1..1\nok this is a bare description - with a dash!\n"),
        Ok(vec![
            plan(1, None),
            point(true, None, Some("this is a bare description - with a dash!")),
        ])
    );
}

#[test]
fn single_sucess_no_num_dash_desc() {
    let mut parser = TapParser::new();
    assert_eq!(
        parser.parse("TAP version 14\n1..1\nok - this is a dash description - with a dash!\n"),
        Ok(vec![
            plan(1, None),
            point(true, None, Some("this is a dash description - with a dash!")),
        ])
    );
}

#[test]
fn sucess_fail_bare() {
    let mut parser = TapParser::new();
    assert_eq!(
        parser.parse("TAP version 14\n1..1\nok\nnot ok\n"),
        Ok(vec![plan(1, None), point(true, None, None), point(false, None, None)])
    );
}

#[test]
fn point_number_overflow() {
    let mut parser = TapParser::new();
    assert_eq!(
        parser.parse("TAP version 14\n1..1\nok 99999999999999999999999 - big\n"),
        Err(Error::InvalidNumber(NumberError::Overflow))
    );
}

// ---------------------------------------------------------------------------
// Directives and escapes
// ---------------------------------------------------------------------------

#[test]
fn single_sucess_skip() {
    let mut parser = TapParser::new();
    assert_eq!(
        parser.parse("TAP version 14\n1..1\nok 1 - desc # SKIP\n"),
        Ok(vec![
            plan(1, None),
            directive_point(true, Some(1), Some("desc"), DirectiveKind::Skip, None),
        ])
    );
}

#[test]
fn single_sucess_todo() {
    let mut parser = TapParser::new();
    assert_eq!(
        parser.parse("TAP version 14\n1..1\nok 1 - desc # TODO\n"),
        Ok(vec![
            plan(1, None),
            directive_point(true, Some(1), Some("desc"), DirectiveKind::Todo, None),
        ])
    );
}

#[test]
fn single_sucess_skip_mixed_case() {
    let mut parser = TapParser::new();
    assert_eq!(
        parser.parse("TAP version 14\n1..1\nok 1 - desc # sKiP\n"),
        Ok(vec![
            plan(1, None),
            directive_point(true, Some(1), Some("desc"), DirectiveKind::Skip, None),
        ])
    );
}

#[test]
fn single_sucess_skip_reason() {
    let mut parser = TapParser::new();
    assert_eq!(
        parser.parse("TAP version 14\n1..1\nok 1 - desc # SKIP  has no power\n"),
        Ok(vec![
            plan(1, None),
            directive_point(true, Some(1), Some("desc"), DirectiveKind::Skip, Some("has no power")),
        ])
    );
}

#[test]
fn empty_directive() {
    let mut parser = TapParser::new();
    assert_eq!(
        parser.parse("TAP version 14\n1..1\nok 1 - desc #\n"),
        Err(Error::MalformedDirective("".to_string()))
    );
    assert_eq!(parser.statements(), vec![plan(1, None)]);
}

#[test]
fn malformed_directive() {
    let mut parser = TapParser::new();
    assert_eq!(
        parser.parse("TAP version 14\n1..1\nok 1 - desc # INVALID\n"),
        Err(Error::MalformedDirective("INVALID".to_string()))
    );
}

#[test]
fn malformed_directive_too_short() {
    let mut parser = TapParser::new();
    assert_eq!(
        parser.parse("TAP version 14\n1..1\nok 1 - desc # SML\n"),
        Err(Error::MalformedDirective("SML".to_string()))
    );
}

#[test]
fn escape_pound() {
    let mut parser = TapParser::new();
    assert_eq!(
        parser.parse("TAP version 14\n1..1\nok 1 - test with \\# escaped \\\\ chars # SKIP\n"),
        Ok(vec![
            plan(1, None),
            directive_point(
                true,
                Some(1),
                Some("test with \\# escaped \\\\ chars"),
                DirectiveKind::Skip,
                None,
            ),
        ])
    );
}

#[test]
fn escaped_hash_only_is_description() {
    let mut parser = TapParser::new();
    assert_eq!(
        parser.parse("TAP version 14\n1..1\nok 1 - all \\# literal\n"),
        Ok(vec![plan(1, None), point(true, Some(1), Some("all \\# literal"))])
    );
}

// ---------------------------------------------------------------------------
// Comments, pragmas, blanks, unknown lines, bail out
// ---------------------------------------------------------------------------

#[test]
fn comment() {
    let mut parser = TapParser::new();
    assert_eq!(
        parser.parse("TAP version 14\n1..1\n#   This is a comment\n"),
        Ok(vec![plan(1, None), TapStatement::Comment("This is a comment".to_string())])
    );
}

#[test]
fn pragma() {
    let mut parser = TapParser::new();
    assert_eq!(
        parser.parse("TAP version 14\n1..1\npragma +strict\n"),
        Ok(vec![plan(1, None)])
    );
}

#[test]
fn blank_lines_ignored() {
    let mut parser = TapParser::new();
    assert_eq!(
        parser.parse("TAP version 14\n1..1\n\nok 1\n"),
        Ok(vec![plan(1, None), point(true, Some(1), None)])
    );
}

#[test]
fn anything_line() {
    let mut parser = TapParser::new();
    assert_eq!(
        parser.parse("TAP version 14\n1..1\nthis is clearly not a valid line\n"),
        Err(Error::UnknownLine("this is clearly not a valid line".to_string()))
    );
    assert_eq!(parser.statements(), vec![plan(1, None)]);
}

#[test]
fn bail() {
    let mut parser = TapParser::new();
    assert_eq!(
        parser.parse("TAP version 14\n1..1\nBail out! We wanted to\nok 1 - desc\n"),
        Err(Error::Bailed("We wanted to".to_string()))
    );
    assert_eq!(parser.statements(), vec![plan(1, None)]);
}

#[test]
fn bail_case_insensitive() {
    let mut parser = TapParser::new();
    assert_eq!(
        parser.parse("TAP version 14\n1..1\nBAIL OUT!  now\n"),
        Err(Error::Bailed("now".to_string()))
    );
}

// ---------------------------------------------------------------------------
// Diagnostic blocks
// ---------------------------------------------------------------------------

#[test]
fn single_failure_yaml() {
    let document =
        "TAP version 14\n1..1\nnot ok 1 - failure\n  ---\n  failure:\n     - why not\n  ...\n";
    let mut parser = TapParser::new();
    assert_eq!(
        parser.parse(document),
        Ok(vec![
            plan(1, None),
            TapStatement::TestPoint(TapTest {
                result: false,
                number: Some(1),
                desc: Some("failure".to_string()),
                directive: None,
                yaml: vec!["failure:".to_string(), "   - why not".to_string()],
            }),
        ])
    );
}

#[test]
fn misindented_yaml() {
    let document =
        "TAP version 14\n1..1\nnot ok 1 - failure\n  ---\n failure:\n     - why not\n  ...\n";
    let mut parser = TapParser::new();
    assert_eq!(
        parser.parse(document),
        Err(Error::Misindent { expected: 2, line: " failure:".to_string() })
    );
    assert_eq!(
        parser.statements(),
        vec![plan(1, None), point(false, Some(1), Some("failure"))]
    );
}

#[test]
fn yaml_after_yaml() {
    let document = "TAP version 14\n1..1\nnot ok 1 - failure\n  ---\n  failure:\n     - why not\n  ...\n  ---\n";
    let mut parser = TapParser::new();
    assert_eq!(parser.parse(document), Err(Error::InvalidYaml));
    assert_eq!(
        parser.statements(),
        vec![
            plan(1, None),
            TapStatement::TestPoint(TapTest {
                result: false,
                number: Some(1),
                desc: Some("failure".to_string()),
                directive: None,
                yaml: vec!["failure:".to_string(), "   - why not".to_string()],
            }),
        ]
    );
}

#[test]
fn yaml_close_only() {
    let document = "TAP version 14\n1..1\nnot ok 1 - failure\n  ...\n";
    let mut parser = TapParser::new();
    assert_eq!(parser.parse(document), Err(Error::InvalidYamlClose));
    assert_eq!(
        parser.statements(),
        vec![plan(1, None), point(false, Some(1), Some("failure"))]
    );
}

#[test]
fn yaml_without_result_line() {
    let mut parser = TapParser::new();
    assert_eq!(
        parser.parse("TAP version 14\n1..1\n  ---\n"),
        Err(Error::InvalidYaml)
    );
}

// ---------------------------------------------------------------------------
// Subtests
// ---------------------------------------------------------------------------

fn subtest_statements() -> Vec<TapStatement> {
    vec![point(true, Some(1), Some("inside subtest")), plan(1, None)]
}

#[test]
fn subtest_with_name() {
    let document =
        "TAP version 14\n1..1\n# Subtest: subtest\n    ok 1 - inside subtest\n    1..1\nok 1 - subtest\n";
    let mut parser = TapParser::new();
    assert_eq!(
        parser.parse(document),
        Ok(vec![
            plan(1, None),
            TapStatement::Subtest(TapSubDocument {
                name: Some("subtest".to_string()),
                statements: subtest_statements(),
                ending: test_point(true, Some(1), Some("subtest")),
            }),
        ])
    );
}

#[test]
fn subtest_header() {
    let document =
        "TAP version 14\n1..1\n# Subtest\n    ok 1 - inside subtest\n    1..1\nok 1 - subtest\n";
    let mut parser = TapParser::new();
    assert_eq!(
        parser.parse(document),
        Ok(vec![
            plan(1, None),
            TapStatement::Subtest(TapSubDocument {
                name: None,
                statements: subtest_statements(),
                ending: test_point(true, Some(1), Some("subtest")),
            }),
        ])
    );
}

#[test]
fn subtest_bare() {
    let document = "TAP version 14\n1..1\n    ok 1 - inside subtest\n    1..1\nok 1 - subtest\n";
    let mut parser = TapParser::new();
    assert_eq!(
        parser.parse(document),
        Ok(vec![
            plan(1, None),
            TapStatement::Subtest(TapSubDocument {
                name: None,
                statements: subtest_statements(),
                ending: test_point(true, Some(1), Some("subtest")),
            }),
        ])
    );
}

#[test]
fn subtest_header_case_insensitive() {
    let document = "TAP version 14\n1..1\n# SUBTEST: upper\n    1..0\nok 1 - upper\n";
    let mut parser = TapParser::new();
    assert_eq!(
        parser.parse(document),
        Ok(vec![
            plan(1, None),
            TapStatement::Subtest(TapSubDocument {
                name: Some("upper".to_string()),
                statements: vec![plan(0, None)],
                ending: test_point(true, Some(1), Some("upper")),
            }),
        ])
    );
}

#[test]
fn subtest_bail() {
    let document =
        "TAP version 14\n1..1\n# Subtest: subtest\n    ok 1 - inside subtest\nBail out! Doing a subtest\n";
    let mut parser = TapParser::new();
    assert_eq!(parser.parse(document), Err(Error::Bailed("Doing a subtest".to_string())));
    // what the unfinished subtest had gathered is discarded
    assert_eq!(parser.statements(), vec![plan(1, None)]);
}

#[test]
fn subtest_eod() {
    let document = "TAP version 14\n1..1\n# Subtest: subtest\nok 1 - out of the subtest\n";
    let mut parser = TapParser::new();
    assert_eq!(parser.parse(document), Err(Error::UnexpectedEOD));
    assert_eq!(parser.statements(), vec![plan(1, None)]);
}

#[test]
fn subtest_misindent() {
    let document =
        "TAP version 14\n1..1\n# Subtest: subtest\n   ok 1 - with three spaces\nok 1 - subtest\n";
    let mut parser = TapParser::new();
    assert_eq!(
        parser.parse(document),
        Err(Error::Misindent { expected: 4, line: "   ok 1 - with three spaces".to_string() })
    );
    assert_eq!(parser.statements(), vec![plan(1, None)]);
}

#[test]
fn subtest_yaml() {
    let document = "TAP version 14\n1..1\n# Subtest: subtest\n    ok 1 - inside subtest\n    1..1\nok 1 - subtest\n  ---\n  yaml_in_subtest\n  ...\n";
    let mut parser = TapParser::new();
    assert_eq!(
        parser.parse(document),
        Ok(vec![
            plan(1, None),
            TapStatement::Subtest(TapSubDocument {
                name: Some("subtest".to_string()),
                statements: subtest_statements(),
                ending: TapTest {
                    result: true,
                    number: Some(1),
                    desc: Some("subtest".to_string()),
                    directive: None,
                    yaml: vec!["yaml_in_subtest".to_string()],
                },
            }),
        ])
    );
}

#[test]
fn subtest_version_redeclaration() {
    let document =
        "TAP version 14\n1..1\n# Subtest\n    TAP version 14\n    1..1\n    ok 1\nok 1 - st\n";
    let mut parser = TapParser::new();
    assert_eq!(
        parser.parse(document),
        Ok(vec![
            plan(1, None),
            TapStatement::Subtest(TapSubDocument {
                name: None,
                statements: vec![plan(1, None), point(true, Some(1), None)],
                ending: test_point(true, Some(1), Some("st")),
            }),
        ])
    );
}

#[test]
fn subtest_bad_version_redeclaration() {
    let document = "TAP version 14\n1..1\n# Subtest\n    TAP version 13\n";
    let mut parser = TapParser::new();
    assert_eq!(parser.parse(document), Err(Error::InvalidVersion("13".to_string())));
}

#[test]
fn nested_subtests() {
    let document = "TAP version 14\n1..1\n# Subtest: outer\n    # Subtest: inner\n        1..0\n    ok 1 - inner\n    1..1\nok 1 - outer\n";
    let mut parser = TapParser::new();
    assert_eq!(
        parser.parse(document),
        Ok(vec![
            plan(1, None),
            TapStatement::Subtest(TapSubDocument {
                name: Some("outer".to_string()),
                statements: vec![
                    TapStatement::Subtest(TapSubDocument {
                        name: Some("inner".to_string()),
                        statements: vec![plan(0, None)],
                        ending: test_point(true, Some(1), Some("inner")),
                    }),
                    plan(1, None),
                ],
                ending: test_point(true, Some(1), Some("outer")),
            }),
        ])
    );
}

#[test]
fn subtest_ending_with_directive() {
    let document = "TAP version 14\n1..1\n    1..0\nok 1 - st # TODO later\n";
    let mut parser = TapParser::new();
    assert_eq!(
        parser.parse(document),
        Ok(vec![
            plan(1, None),
            TapStatement::Subtest(TapSubDocument {
                name: None,
                statements: vec![plan(0, None)],
                ending: TapTest {
                    result: true,
                    number: Some(1),
                    desc: Some("st".to_string()),
                    directive: Some(TapDirective {
                        kind: DirectiveKind::Todo,
                        reason: Some("later".to_string()),
                    }),
                    yaml: Vec::new(),
                },
            }),
        ])
    );
}

// ---------------------------------------------------------------------------
// Grammar edges
// ---------------------------------------------------------------------------

#[test]
fn ok_prefix_is_literal() {
    // any line starting with the two letters `ok` is a result line; the
    // remainder is the test-point text
    let mut parser = TapParser::new();
    assert_eq!(
        parser.parse("TAP version 14\n1..1\nokay\n"),
        Ok(vec![plan(1, None), point(true, None, Some("ay"))])
    );
}

#[test]
fn statements_empty_after_success() {
    // a successful parse moves the statements out of the instance
    let mut parser = TapParser::new();
    assert!(parser.parse("TAP version 14\n1..0\n").is_ok());
    assert_eq!(parser.statements(), vec![]);
}

// ---------------------------------------------------------------------------
// The internal-error guard
// ---------------------------------------------------------------------------

#[test]
fn diagnostic_block_after_nested_plan_close() {
    // inside the subtest the plan follows a result line, which closes the
    // nested document; a diagnostic block then reaches a nested instance
    // whose most recent statement is the plan, which the collector cannot
    // back-fill, and the parser reports it rather than panicking
    let document = "TAP version 14\n1..1\n    ok 1\n    1..1\n      ---\n      ...\n";
    let mut parser = TapParser::new();
    assert_eq!(parser.parse(document), Err(Error::Internal));
    assert_eq!(parser.statements(), vec![plan(1, None)]);
}
