//! The laws of the parser: properties that hold of every document, stated
//! over the transition functions of `semantics` and proved once and for all.
use vstd::prelude::*;

use crate::grammar::eq_ci;
use crate::grammar::opt_text;
use crate::grammar::skip_chars;
use crate::grammar::spec_desc_directive;
use crate::grammar::spec_directive;
use crate::grammar::todo_chars;
use crate::model::DirectiveKind;
use crate::model::DirectiveModel;
use crate::model::ErrorModel;
use crate::model::StatementModel;
use crate::model::TestModel;
use crate::semantics::ParserModel;
use crate::semantics::init_model;
use crate::semantics::ok_prefix;
use crate::semantics::not_ok_prefix;
use crate::semantics::bail_prefix;
use crate::semantics::plan_prefix;
use crate::semantics::spaces;
use crate::semantics::spec_parse;
use crate::semantics::spec_run;
use crate::semantics::spec_step;
use crate::semantics::step_plan;
use crate::semantics::version_prefix;
use crate::semantics::version_value;
use crate::semantics::yaml_close_line;
use crate::semantics::yaml_open_line;
use crate::text::find_hash;
use crate::text::has_prefix;
use crate::text::has_prefix_ci;
use crate::text::spec_lines;
use crate::text::spec_trim;

verus! {

// ---------------------------------------------------------------------------
// Plans
// ---------------------------------------------------------------------------

/// A second plan line while one has already been recorded always fails with
/// `DuplicatedPlan`, whatever the state of the instance and wherever in the
/// document the line stands, and the instance is left unchanged.
pub proof fn lemma_duplicated_plan(p: ParserModel, line: Seq<char>)
    requires
        p.read_plan,
        has_prefix(line, plan_prefix()),
    ensures
        spec_step(p, line) == (p, Some(ErrorModel::DuplicatedPlan)),
{
}

/// One step never disturbs an already-emitted first statement: a plan at
/// index 0 is still there, unchanged, after any line.
proof fn lemma_step_preserves_first(p: ParserModel, line: Seq<char>)
    requires
        p.statements.len() >= 1,
        p.statements[0] is Plan,
    ensures
        ({
            let q = spec_step(p, line).0;
            q.statements.len() >= 1 && q.statements[0] == p.statements[0]
        }),
{
}

/// Running any sequence of lines never disturbs an already-emitted first
/// statement.
proof fn lemma_run_preserves_first(p: ParserModel, lines: Seq<Seq<char>>)
    requires
        p.statements.len() >= 1,
        p.statements[0] is Plan,
    ensures
        ({
            let q = spec_run(p, lines).0;
            q.statements.len() >= 1 && q.statements[0] == p.statements[0]
        }),
    decreases lines.len(),
{
    if lines.len() > 0 && !p.done {
        let se = spec_step(p, lines[0]);
        lemma_step_preserves_first(p, lines[0]);
        if se.1 is None {
            lemma_run_preserves_first(se.0, lines.subrange(1, lines.len() as int));
        }
    }
}

/// For any valid plan-first document — the parse succeeds and the first
/// body line is a plan line — the first statement of the result is the
/// plan.
pub proof fn lemma_plan_first(doc: Seq<char>)
    requires
        spec_lines(doc).len() >= 2,
        has_prefix(spec_lines(doc)[1], plan_prefix()),
        spec_parse(init_model(), doc).1 is Ok,
    ensures
        ({
            let out = spec_parse(init_model(), doc).1->Ok_0;
            out.len() >= 1 && out[0] is Plan
        }),
{
    let lines = spec_lines(doc);
    let body = lines.subrange(1, lines.len() as int);
    let se = spec_step(init_model(), body[0]);
    assert(body[0] == lines[1]);
    if se.1 is None {
        let q = se.0;
        assert(q.statements[0] is Plan);
        lemma_run_preserves_first(q, body.subrange(1, body.len() as int));
    }
}

/// A run from a done instance consumes nothing and changes nothing.
proof fn lemma_run_stops_when_done(p: ParserModel, lines: Seq<Seq<char>>)
    requires
        p.done,
    ensures
        spec_run(p, lines) == (p, None::<ErrorModel>),
{
}

/// A run splits at any point: the whole run equals the run of the prefix
/// followed, unless the prefix failed, by the run of the suffix.
proof fn lemma_run_split(p: ParserModel, lines: Seq<Seq<char>>, k: int)
    requires
        0 <= k <= lines.len(),
    ensures
        ({
            let r1 = spec_run(p, lines.subrange(0, k));
            if r1.1 is Some {
                spec_run(p, lines) == r1
            } else {
                spec_run(p, lines) == spec_run(r1.0, lines.subrange(k, lines.len() as int))
            }
        }),
    decreases k,
{
    let prefix = lines.subrange(0, k);
    if k == 0 {
        assert(lines.subrange(0, lines.len() as int) =~= lines);
    } else if p.done {
        lemma_run_stops_when_done(p, lines);
        lemma_run_stops_when_done(p, prefix);
        lemma_run_stops_when_done(p, lines.subrange(k, lines.len() as int));
    } else {
        assert(prefix[0] == lines[0]);
        let se = spec_step(p, lines[0]);
        if se.1 is None {
            let tail = lines.subrange(1, lines.len() as int);
            assert(prefix.subrange(1, k) =~= tail.subrange(0, k - 1));
            lemma_run_split(se.0, tail, k - 1);
            assert(tail.subrange(k - 1, tail.len() as int) =~= lines.subrange(
                k,
                lines.len() as int,
            ));
        }
    }
}

/// For any document whose plan line comes after at least one other body
/// line and parses cleanly, the whole parse succeeds and every line after
/// the plan is ignored: the run of the whole body equals the run cut off
/// right after the plan, so the trailing lines leave no trace in the
/// result.
pub proof fn lemma_plan_last(doc: Seq<char>, k: int)
    requires
        ({
            let lines = spec_lines(doc);
            &&& lines.len() >= 1
            &&& has_prefix(lines[0], version_prefix())
            &&& spec_trim(lines[0].subrange(11, lines[0].len() as int)) == version_value()
            &&& 1 <= k < lines.len()
            &&& has_prefix(lines[k], plan_prefix())
            &&& ({
                let re = spec_run(init_model(), lines.subrange(1, k));
                &&& re.1 is None
                &&& !re.0.done
                &&& re.0.in_body
                &&& !re.0.read_plan
                &&& step_plan(re.0, lines[k]).1 is None
            })
        }),
    ensures
        ({
            let lines = spec_lines(doc);
            let re = spec_run(init_model(), lines.subrange(1, k));
            let q = spec_step(re.0, lines[k]).0;
            &&& q.done
            &&& spec_run(init_model(), lines.subrange(1, lines.len() as int)) == (
                q,
                None::<ErrorModel>,
            )
            &&& spec_parse(init_model(), doc).1 == Ok::<Seq<StatementModel>, ErrorModel>(
                q.statements,
            )
        }),
{
    let lines = spec_lines(doc);
    let body = lines.subrange(1, lines.len() as int);
    let re = spec_run(init_model(), lines.subrange(1, k));
    assert(body.subrange(0, k - 1) =~= lines.subrange(1, k));
    lemma_run_split(init_model(), body, k - 1);
    let rest = body.subrange(k - 1, body.len() as int);
    assert(rest[0] == lines[k]);
    let se = spec_step(re.0, lines[k]);
    assert(se == step_plan(re.0, lines[k]));
    let q = se.0;
    assert(q.done);
    lemma_run_stops_when_done(q, rest.subrange(1, rest.len() as int));
}

// ---------------------------------------------------------------------------
// Subtests
// ---------------------------------------------------------------------------

/// Closing a subtest demands that the nested document has its plan read or
/// was closed by a plan: an unindented result line folds it then, and fails
/// the whole parse with `UnexpectedEOD` otherwise — and `UnexpectedEOD`
/// arises at the close in no other way.
pub proof fn lemma_subtest_close_requires_plan(p: ParserModel, line: Seq<char>)
    requires
        p.state is Subtest,
        p.sub is Some,
        !has_prefix(line, plan_prefix()),
        !has_prefix_ci(line, bail_prefix()),
        has_prefix(line, ok_prefix()) || has_prefix(line, not_ok_prefix()),
    ensures
        ({
            let sub = p.sub->Some_0;
            let closed = (*sub.parser).done || (*sub.parser).read_plan;
            &&& (!closed ==> spec_step(p, line) == (
                ParserModel { sub: None, ..p },
                Some(ErrorModel::UnexpectedEOD),
            ))
            &&& (closed ==> spec_step(p, line).1 != Some(ErrorModel::UnexpectedEOD))
        }),
{
}

// ---------------------------------------------------------------------------
// Directives
// ---------------------------------------------------------------------------

/// The directive keyword is recognised case-insensitively: every
/// four-character token whose letters fold to `skip` yields the Skip
/// directive with no reason, and every one folding to `todo` yields Todo —
/// `SKIP`, `skip` and `sKiP` are the same directive.
pub proof fn lemma_directive_case_insensitive(tok: Seq<char>)
    requires
        tok.len() == 4,
    ensures
        eq_ci(tok, skip_chars()) ==> spec_directive(tok) == Ok::<DirectiveModel, ErrorModel>(
            DirectiveModel { kind: DirectiveKind::Skip, reason: None },
        ),
        eq_ci(tok, todo_chars()) ==> spec_directive(tok) == Ok::<DirectiveModel, ErrorModel>(
            DirectiveModel { kind: DirectiveKind::Todo, reason: None },
        ),
{
    assert(tok.subrange(0, 4) =~= tok);
}

// ---------------------------------------------------------------------------
// Escapes
// ---------------------------------------------------------------------------

/// The escape flag that the directive scan carries when it reaches index
/// `i`: toggled by each backslash, cleared by an escaped `#`, untouched by
/// every other character.
pub open spec fn esc_flag(s: Seq<char>, i: int) -> bool
    decreases i,
{
    if i <= 0 {
        false
    } else if s[i - 1] == '\\' {
        !esc_flag(s, i - 1)
    } else if s[i - 1] == '#' {
        false
    } else {
        esc_flag(s, i - 1)
    }
}

/// The scan finds exactly the first `#` whose escape flag is off.
proof fn lemma_find_hash_from(s: Seq<char>, i: int)
    requires
        0 <= i <= s.len(),
    ensures
        ({
            match find_hash(s, i, esc_flag(s, i)) {
                Some(j) => {
                    &&& i <= j < s.len()
                    &&& s[j] == '#'
                    &&& !esc_flag(s, j)
                    &&& forall|m: int| i <= m < j && s[m] == '#' ==> esc_flag(s, m)
                },
                None => forall|m: int| i <= m < s.len() && s[m] == '#' ==> esc_flag(s, m),
            }
        }),
    decreases s.len() - i,
{
    if i < s.len() {
        if s[i] == '#' && !esc_flag(s, i) {
        } else {
            assert(esc_flag(s, i + 1) == (if s[i] == '\\' {
                !esc_flag(s, i)
            } else if s[i] == '#' {
                false
            } else {
                esc_flag(s, i)
            }));
            lemma_find_hash_from(s, i + 1);
        }
    }
}

/// An unescaped `#` inside the description region always starts a directive
/// parse: the line either carries a directive or fails with
/// `MalformedDirective` — it never comes back as a plain description.
pub proof fn lemma_unescaped_hash_starts_directive(end: Seq<char>, j: int)
    requires
        0 <= j < end.len(),
        end[j] == '#',
        !esc_flag(end, j),
    ensures
        spec_desc_directive(end) is Err || spec_desc_directive(end)->Ok_0.1 is Some,
{
    lemma_find_hash_from(end, 0);
}

/// An escaped `#` never starts a directive, and the description text keeps
/// its backslashes exactly as written: where every `#` in the region is
/// escaped, the whole region is the description, verbatim, and there is no
/// directive.
pub proof fn lemma_escaped_hash_stays_literal(end: Seq<char>)
    requires
        forall|m: int| 0 <= m < end.len() && end[m] == '#' ==> esc_flag(end, m),
    ensures
        spec_desc_directive(end) == Ok::<(Option<Seq<char>>, Option<DirectiveModel>), ErrorModel>(
            (opt_text(end), None),
        ),
{
    lemma_find_hash_from(end, 0);
}

// ---------------------------------------------------------------------------
// Diagnostic blocks
// ---------------------------------------------------------------------------

/// The lines of `body` each with their two-space indent removed, in order.
pub open spec fn strip_indent2(body: Seq<Seq<char>>) -> Seq<Seq<char>> {
    Seq::new(body.len(), |i: int| body[i].subrange(2, body[i].len() as int))
}

/// While a diagnostic block is open, a line carrying the two-space indent
/// (and not closing the block) is captured verbatim with exactly that
/// indent removed, and nothing else of the instance changes.
pub proof fn lemma_yaml_captures_verbatim(p: ParserModel, line: Seq<char>)
    requires
        p.state is Yaml,
        has_prefix(line, spaces(2)),
        line != yaml_close_line(),
    ensures
        spec_step(p, line) == (
            ParserModel { yaml: p.yaml.push(line.subrange(2, line.len() as int)), ..p },
            None::<ErrorModel>,
        ),
{
    assert(line[0] == spaces(2)[0]);
    assert(!has_prefix(line, plan_prefix())) by {
        if has_prefix(line, plan_prefix()) {
            assert(line[0] == plan_prefix()[0]);
        }
    }
}

/// Feeding a whole captured block from the Yaml state: the accumulator ends
/// up extended by the lines with their indent removed, and the closing line
/// is then the next to act.
proof fn lemma_yaml_capture_run(p: ParserModel, body: Seq<Seq<char>>)
    requires
        p.state is Yaml,
        !p.done,
        forall|i: int|
            0 <= i < body.len() ==> has_prefix(#[trigger] body[i], spaces(2)) && body[i]
                != yaml_close_line(),
    ensures
        spec_run(p, body + seq![yaml_close_line()]) == spec_run(
            ParserModel { yaml: p.yaml + strip_indent2(body), ..p },
            seq![yaml_close_line()],
        ),
    decreases body.len(),
{
    if body.len() == 0 {
        assert(p.yaml + strip_indent2(body) =~= p.yaml);
        assert(body + seq![yaml_close_line()] =~= seq![yaml_close_line()]);
        assert(ParserModel { yaml: p.yaml + strip_indent2(body), ..p } =~= p);
    } else {
        let all = body + seq![yaml_close_line()];
        assert(all[0] == body[0]);
        lemma_yaml_captures_verbatim(p, body[0]);
        let p1 = ParserModel { yaml: p.yaml.push(body[0].subrange(2, body[0].len() as int)), ..p };
        assert(spec_step(p, all[0]) == (p1, None::<ErrorModel>));
        let rest = body.subrange(1, body.len() as int);
        assert(all.subrange(1, all.len() as int) =~= rest + seq![yaml_close_line()]);
        lemma_yaml_capture_run(p1, rest);
        assert(p1.yaml + strip_indent2(rest) =~= p.yaml + strip_indent2(body));
        assert(ParserModel { yaml: p1.yaml + strip_indent2(rest), ..p1 } == ParserModel {
            yaml: p.yaml + strip_indent2(body),
            ..p
        });
    }
}

/// A whole diagnostic block fed right after a result line: the captured
/// lines equal the input lines with exactly their two-space indent removed,
/// in their original order, attached to the most recently appended test
/// point; the accumulator is empty again and the state is Body.
pub proof fn lemma_yaml_block(p: ParserModel, body: Seq<Seq<char>>)
    requires
        p.state is AfterTest,
        !p.done,
        p.yaml.len() == 0,
        p.statements.len() > 0,
        p.statements.last() is TestPoint,
        forall|i: int|
            0 <= i < body.len() ==> has_prefix(#[trigger] body[i], spaces(2)) && body[i]
                != yaml_close_line(),
    ensures
        ({
            let r = spec_run(p, seq![yaml_open_line()] + body + seq![yaml_close_line()]);
            let t = p.statements.last()->TestPoint_0;
            &&& r.1 is None
            &&& r.0.state is Body
            &&& r.0.yaml.len() == 0
            &&& r.0.statements == p.statements.update(
                p.statements.len() - 1,
                StatementModel::TestPoint(TestModel { yaml: strip_indent2(body), ..t }),
            )
        }),
{
    let all = seq![yaml_open_line()] + body + seq![yaml_close_line()];
    assert(all[0] == yaml_open_line());
    assert(!has_prefix(yaml_open_line(), plan_prefix())) by {
        if has_prefix(yaml_open_line(), plan_prefix()) {
            assert(yaml_open_line()[0] == plan_prefix()[0]);
        }
    }
    let p1 = ParserModel { state: crate::semantics::StateModel::Yaml, ..p };
    assert(spec_step(p, all[0]) == (p1, None::<ErrorModel>));
    assert(all.subrange(1, all.len() as int) =~= body + seq![yaml_close_line()]);
    lemma_yaml_capture_run(p1, body);
    let p2 = ParserModel { yaml: p1.yaml + strip_indent2(body), ..p1 };
    assert(spec_run(p, all) == spec_run(p2, seq![yaml_close_line()]));
    assert(p2.yaml =~= strip_indent2(body));
    let closer = yaml_close_line();
    assert(!has_prefix(closer, plan_prefix())) by {
        if has_prefix(closer, plan_prefix()) {
            assert(closer[0] == plan_prefix()[0]);
        }
    }
    assert((seq![closer])[0] == closer);
    let se2 = spec_step(p2, closer);
    let t = p.statements.last()->TestPoint_0;
    assert(se2.0.statements == p.statements.update(
        p.statements.len() - 1,
        StatementModel::TestPoint(TestModel { yaml: p2.yaml, ..t }),
    ));
    assert(se2.1 is None);
    assert(!p2.done);
    assert((seq![closer]).len() == 1);
    assert((seq![closer]).subrange(1, (seq![closer]).len() as int) =~= Seq::<Seq<char>>::empty());
    assert(spec_run(se2.0, (seq![closer]).subrange(1, (seq![closer]).len() as int)) == (
        se2.0,
        None::<ErrorModel>,
    ));
    assert(spec_run(p2, seq![closer]) == (se2.0, None::<ErrorModel>));
    assert(TestModel { yaml: p2.yaml, ..t } == TestModel { yaml: strip_indent2(body), ..t });
}

/// A closing line without an opener fails with `InvalidYamlClose`.
pub proof fn lemma_yaml_close_without_open(p: ParserModel)
    requires
        p.state is Body || p.state is AfterTest,
    ensures
        spec_step(p, yaml_close_line()) == (
            ParserModel { in_body: true, ..p },
            Some(ErrorModel::InvalidYamlClose),
        ),
{
    let line = yaml_close_line();
    assert(!has_prefix(line, plan_prefix())) by {
        if has_prefix(line, plan_prefix()) {
            assert(line[0] == plan_prefix()[0]);
        }
    }
    assert(!has_prefix(line, spaces(4))) by {
        if has_prefix(line, spaces(4)) {
            assert(line[2] == spaces(4)[2]);
        }
    }
    assert(!has_prefix(line, ok_prefix())) by {
        if has_prefix(line, ok_prefix()) {
            assert(line[0] == ok_prefix()[0]);
        }
    }
    assert(!has_prefix(line, not_ok_prefix())) by {
        if has_prefix(line, not_ok_prefix()) {
            assert(line[0] == not_ok_prefix()[0]);
        }
    }
}

/// Opening a block twice in a row fails with `InvalidYaml`: a block close
/// returns the state machine to Body, where a bare opener is refused.
pub proof fn lemma_yaml_reopen(p: ParserModel)
    requires
        p.state is Body,
    ensures
        spec_step(p, yaml_open_line()) == (
            ParserModel { in_body: true, ..p },
            Some(ErrorModel::InvalidYaml),
        ),
{
    let line = yaml_open_line();
    assert(!has_prefix(line, plan_prefix())) by {
        if has_prefix(line, plan_prefix()) {
            assert(line[0] == plan_prefix()[0]);
        }
    }
    assert(!has_prefix(line, spaces(4))) by {
        if has_prefix(line, spaces(4)) {
            assert(line[2] == spaces(4)[2]);
        }
    }
    assert(!has_prefix(line, ok_prefix())) by {
        if has_prefix(line, ok_prefix()) {
            assert(line[0] == ok_prefix()[0]);
        }
    }
    assert(!has_prefix(line, not_ok_prefix())) by {
        if has_prefix(line, not_ok_prefix()) {
            assert(line[0] == not_ok_prefix()[0]);
        }
    }
}

} // verus!
