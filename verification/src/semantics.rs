//! The meaning of the parser: a mathematical model of the parser state and a
//! per-line transition function, followed by the fold over a document's lines
//! that the public `parse` is proved against.
use vstd::prelude::*;

use crate::grammar::spec_read_test_line;
use crate::model::ErrorModel;
use crate::model::PlanModel;
use crate::model::StatementModel;
use crate::model::SubDocumentModel;
use crate::model::TestModel;
use crate::text::has_prefix;
use crate::text::has_prefix_ci;
use crate::text::scan_char;
use crate::text::spec_lines;
use crate::text::spec_parse_usize;
use crate::text::spec_trim;

verus! {

/// Model of the body state machine's state.
#[verifier::ext_equal]
pub enum StateModel {
    Body,
    AfterTest,
    Yaml,
    Subtest,
}

/// Model of a whole parser instance: its flags, the diagnostic-block
/// accumulator, the statements emitted so far, and the nested instance while
/// a subtest is open.
#[verifier::ext_equal]
pub struct ParserModel {
    pub in_body: bool,
    pub done: bool,
    pub state: StateModel,
    pub yaml: Seq<Seq<char>>,
    pub statements: Seq<StatementModel>,
    pub read_plan: bool,
    pub sub: Option<SubParserModel>,
}

/// Model of an open subtest: the nested parser and the remembered name.
#[verifier::ext_equal]
pub struct SubParserModel {
    pub parser: Box<ParserModel>,
    pub name: Option<Seq<char>>,
}

/// The state of a freshly created parser.
pub open spec fn init_model() -> ParserModel {
    ParserModel {
        in_body: false,
        done: false,
        state: StateModel::Body,
        yaml: Seq::empty(),
        statements: Seq::empty(),
        read_plan: false,
        sub: None,
    }
}

// ---------------------------------------------------------------------------
// The literal tokens of the line grammar
// ---------------------------------------------------------------------------

/// `1..`, the prefix of a plan line.
pub open spec fn plan_prefix() -> Seq<char> {
    seq!['1', '.', '.']
}

/// `ok`, the prefix of a passing result line.
pub open spec fn ok_prefix() -> Seq<char> {
    seq!['o', 'k']
}

/// `not ok`, the prefix of a failing result line.
pub open spec fn not_ok_prefix() -> Seq<char> {
    seq!['n', 'o', 't', ' ', 'o', 'k']
}

/// `  ---`, the line that opens a diagnostic block.
pub open spec fn yaml_open_line() -> Seq<char> {
    seq![' ', ' ', '-', '-', '-']
}

/// `  ...`, the line that closes a diagnostic block.
pub open spec fn yaml_close_line() -> Seq<char> {
    seq![' ', ' ', '.', '.', '.']
}

/// `bail out!`, compared case-insensitively.
pub open spec fn bail_prefix() -> Seq<char> {
    seq!['b', 'a', 'i', 'l', ' ', 'o', 'u', 't', '!']
}

/// `# subtest`, compared case-insensitively.
pub open spec fn subtest_prefix() -> Seq<char> {
    seq!['#', ' ', 's', 'u', 'b', 't', 'e', 's', 't']
}

/// `TAP version`, the prefix of the mandatory first line.
pub open spec fn version_prefix() -> Seq<char> {
    seq!['T', 'A', 'P', ' ', 'v', 'e', 'r', 's', 'i', 'o', 'n']
}

/// `    TAP version`, a version re-declaration inside a subtest.
pub open spec fn nested_version_prefix() -> Seq<char> {
    seq![' ', ' ', ' ', ' ', 'T', 'A', 'P', ' ', 'v', 'e', 'r', 's', 'i', 'o', 'n']
}

/// `14`, the only accepted version value.
pub open spec fn version_value() -> Seq<char> {
    seq!['1', '4']
}

/// `pragma `, the prefix of an ignored pragma line.
pub open spec fn pragma_prefix() -> Seq<char> {
    seq!['p', 'r', 'a', 'g', 'm', 'a', ' ']
}

/// `#`, the prefix of a comment line.
pub open spec fn hash_prefix() -> Seq<char> {
    seq!['#']
}

/// `n` space characters.
pub open spec fn spaces(n: nat) -> Seq<char> {
    Seq::new(n, |i: int| ' ')
}

// ---------------------------------------------------------------------------
// The per-line transition
// ---------------------------------------------------------------------------

/// A plan line: refuse a duplicate, read `count[#reason]`, append the plan;
/// a plan after any other body line marks the instance done.
pub open spec fn step_plan(p: ParserModel, line: Seq<char>) -> (ParserModel, Option<ErrorModel>) {
    if p.read_plan {
        (p, Some(ErrorModel::DuplicatedPlan))
    } else {
        let pr = line.subrange(3, line.len() as int);
        let h = scan_char(pr, 0, '#');
        let numtxt = if h < pr.len() {
            pr.subrange(0, h)
        } else {
            pr
        };
        let reason = if h < pr.len() {
            Some(spec_trim(pr.subrange(h + 1, pr.len() as int)))
        } else {
            None
        };
        match spec_parse_usize(spec_trim(numtxt)) {
            Err(e) => (p, Some(ErrorModel::InvalidNumber(e))),
            Ok(count) => (
                ParserModel {
                    statements: p.statements.push(StatementModel::Plan(PlanModel { count, reason })),
                    done: if p.in_body {
                        true
                    } else {
                        p.done
                    },
                    in_body: true,
                    read_plan: true,
                    ..p
                },
                None,
            ),
        }
    }
}

/// A line while a diagnostic block is open: `  ...` moves the accumulated
/// lines into the most recently appended result record, anything else must
/// carry the two-space indent and is captured verbatim.
pub open spec fn step_yaml(p: ParserModel, line: Seq<char>) -> (ParserModel, Option<ErrorModel>) {
    if line == yaml_close_line() {
        if p.statements.len() == 0 {
            (p, Some(ErrorModel::Internal))
        } else {
            let last = p.statements.last();
            match last {
                StatementModel::TestPoint(t) => (
                    ParserModel {
                        statements: p.statements.update(
                            p.statements.len() - 1,
                            StatementModel::TestPoint(TestModel { yaml: p.yaml, ..t }),
                        ),
                        yaml: Seq::empty(),
                        state: StateModel::Body,
                        ..p
                    },
                    None,
                ),
                StatementModel::Subtest(sd) => (
                    ParserModel {
                        statements: p.statements.update(
                            p.statements.len() - 1,
                            StatementModel::Subtest(
                                SubDocumentModel {
                                    ending: TestModel { yaml: p.yaml, ..sd.ending },
                                    ..sd
                                },
                            ),
                        ),
                        yaml: Seq::empty(),
                        state: StateModel::Body,
                        ..p
                    },
                    None,
                ),
                _ => (p, Some(ErrorModel::Internal)),
            }
        }
    } else if !has_prefix(line, spaces(2)) {
        (p, Some(ErrorModel::Misindent { expected: 2, line }))
    } else {
        (ParserModel { yaml: p.yaml.push(line.subrange(2, line.len() as int)), ..p }, None)
    }
}

/// A line while a subtest is open: a bail-out aborts everything, an
/// unindented result line closes the subtest, a version re-declaration is
/// checked, and any other line must carry the four-space indent and is
/// handed to the nested instance.
pub open spec fn step_subtest(p: ParserModel, line: Seq<char>) -> (ParserModel, Option<ErrorModel>)
    decreases line.len(), 0int,
{
    if has_prefix_ci(line, bail_prefix()) {
        (p, Some(ErrorModel::Bailed(spec_trim(line.subrange(9, line.len() as int)))))
    } else if has_prefix(line, ok_prefix()) || has_prefix(line, not_ok_prefix()) {
        match p.sub {
            None => (p, Some(ErrorModel::Internal)),
            Some(sub) => {
                let p1 = ParserModel { sub: None, ..p };
                if !((*sub.parser).done || (*sub.parser).read_plan) {
                    (p1, Some(ErrorModel::UnexpectedEOD))
                } else {
                    let rt = if has_prefix(line, ok_prefix()) {
                        spec_read_test_line(true, spec_trim(line.subrange(2, line.len() as int)))
                    } else {
                        spec_read_test_line(false, spec_trim(line.subrange(6, line.len() as int)))
                    };
                    match rt {
                        Err(e) => (p1, Some(e)),
                        Ok(ending) => (
                            ParserModel {
                                sub: None,
                                statements: p.statements.push(
                                    StatementModel::Subtest(
                                        SubDocumentModel {
                                            name: sub.name,
                                            statements: (*sub.parser).statements,
                                            ending,
                                        },
                                    ),
                                ),
                                state: StateModel::AfterTest,
                                ..p
                            },
                            None,
                        ),
                    }
                }
            },
        }
    } else if !has_prefix(line, spaces(4)) {
        (p, Some(ErrorModel::Misindent { expected: 4, line }))
    } else if has_prefix(line, nested_version_prefix()) {
        let v = spec_trim(line.subrange(15, line.len() as int));
        if v == version_value() {
            (p, None)
        } else {
            (p, Some(ErrorModel::InvalidVersion(v)))
        }
    } else {
        match p.sub {
            None => (p, Some(ErrorModel::Internal)),
            Some(sub) => {
                let fe = spec_step(*sub.parser, line.subrange(4, line.len() as int));
                (
                    ParserModel {
                        sub: Some(SubParserModel { parser: Box::new(fe.0), name: sub.name }),
                        ..p
                    },
                    fe.1,
                )
            },
        }
    }
}

/// A line in the plain body states: it may open a subtest, emit a result
/// line or a comment, misuse the diagnostic-block markers, bail out, be
/// ignored as blank or pragma, or fit nothing.
pub open spec fn step_body(p: ParserModel, line: Seq<char>) -> (ParserModel, Option<ErrorModel>)
    decreases line.len(), 0int,
{
    let pb = ParserModel { in_body: true, ..p };
    if has_prefix(line, spaces(4)) || has_prefix_ci(line, subtest_prefix()) {
        let name = if line.len() > 0 && line[0] == '#' {
            let c = scan_char(line, 0, ':');
            if c < line.len() {
                Some(spec_trim(line.subrange(c + 1, line.len() as int)))
            } else {
                None
            }
        } else {
            None
        };
        let p1 = ParserModel { state: StateModel::Subtest, ..pb };
        if has_prefix(line, spaces(4)) {
            let fe = spec_step(init_model(), line.subrange(4, line.len() as int));
            if fe.1 is Some {
                (p1, fe.1)
            } else {
                (
                    ParserModel {
                        sub: Some(SubParserModel { parser: Box::new(fe.0), name }),
                        ..p1
                    },
                    None,
                )
            }
        } else {
            (
                ParserModel {
                    sub: Some(SubParserModel { parser: Box::new(init_model()), name }),
                    ..p1
                },
                None,
            )
        }
    } else if has_prefix(line, ok_prefix()) {
        match spec_read_test_line(true, spec_trim(line.subrange(2, line.len() as int))) {
            Err(e) => (pb, Some(e)),
            Ok(t) => (
                ParserModel {
                    state: StateModel::AfterTest,
                    statements: pb.statements.push(StatementModel::TestPoint(t)),
                    ..pb
                },
                None,
            ),
        }
    } else if has_prefix(line, not_ok_prefix()) {
        match spec_read_test_line(false, spec_trim(line.subrange(6, line.len() as int))) {
            Err(e) => (pb, Some(e)),
            Ok(t) => (
                ParserModel {
                    state: StateModel::AfterTest,
                    statements: pb.statements.push(StatementModel::TestPoint(t)),
                    ..pb
                },
                None,
            ),
        }
    } else if line == yaml_open_line() {
        (pb, Some(ErrorModel::InvalidYaml))
    } else if line == yaml_close_line() {
        (pb, Some(ErrorModel::InvalidYamlClose))
    } else if has_prefix_ci(line, bail_prefix()) {
        (pb, Some(ErrorModel::Bailed(spec_trim(line.subrange(9, line.len() as int)))))
    } else if has_prefix(line, hash_prefix()) {
        (
            ParserModel {
                statements: pb.statements.push(
                    StatementModel::Comment(spec_trim(line.subrange(1, line.len() as int))),
                ),
                ..pb
            },
            None,
        )
    } else if spec_trim(line).len() == 0 || has_prefix(line, pragma_prefix()) {
        (pb, None)
    } else {
        (pb, Some(ErrorModel::UnknownLine(line)))
    }
}

/// One line fed to the body state machine: a plan line is recognised first
/// whatever the state; everything else goes by the state.
pub open spec fn spec_step(p: ParserModel, line: Seq<char>) -> (ParserModel, Option<ErrorModel>)
    decreases line.len(), 1int,
{
    if has_prefix(line, plan_prefix()) {
        step_plan(p, line)
    } else if p.state is AfterTest && line == yaml_open_line() {
        (ParserModel { state: StateModel::Yaml, ..p }, None)
    } else if p.state is Subtest {
        step_subtest(p, line)
    } else if p.state is Yaml {
        step_yaml(p, line)
    } else {
        step_body(p, line)
    }
}

/// Feed lines in order, stopping at the first error or once the instance is
/// done.
pub open spec fn spec_run(p: ParserModel, lines: Seq<Seq<char>>) -> (
    ParserModel,
    Option<ErrorModel>,
)
    decreases lines.len(),
{
    if lines.len() == 0 {
        (p, None)
    } else if p.done {
        (p, None)
    } else {
        let se = spec_step(p, lines[0]);
        if se.1 is Some {
            se
        } else {
            spec_run(se.0, lines.subrange(1, lines.len() as int))
        }
    }
}

/// A whole document: the version gate, then the body lines, then the check
/// that a plan was read or the instance closed; on success the statements
/// are moved out.
pub open spec fn spec_parse(p0: ParserModel, doc: Seq<char>) -> (
    ParserModel,
    Result<Seq<StatementModel>, ErrorModel>,
) {
    let lines = spec_lines(doc);
    if lines.len() == 0 {
        (p0, Err(ErrorModel::NoVersion))
    } else if !has_prefix(lines[0], version_prefix()) {
        (p0, Err(ErrorModel::NoVersion))
    } else {
        let v = spec_trim(lines[0].subrange(11, lines[0].len() as int));
        if v != version_value() {
            (p0, Err(ErrorModel::InvalidVersion(v)))
        } else {
            let re = spec_run(p0, lines.subrange(1, lines.len() as int));
            match re.1 {
                Some(e) => (re.0, Err(e)),
                None => if re.0.done || re.0.read_plan {
                    (ParserModel { statements: Seq::empty(), ..re.0 }, Ok(re.0.statements))
                } else {
                    (re.0, Err(ErrorModel::UnexpectedEOD))
                },
            }
        }
    }
}

} // verus!
