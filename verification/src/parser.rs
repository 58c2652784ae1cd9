//! The parser: per-instance state, the body state machine over one line, the
//! subtest engine that owns a nested instance, and the whole-document driver.
//! Every method is proved against the transition functions in `semantics`.
use vstd::prelude::*;

use crate::grammar::read_test_line;
use crate::model::Error;
use crate::model::ErrorModel;
use crate::model::StatementModel;
use crate::model::TapPlan;
use crate::model::TapStatement;
use crate::model::TapSubDocument;
use crate::model::lemma_stmts_view;
use crate::model::stmts_view;
use crate::semantics::ParserModel;
use crate::semantics::StateModel;
use crate::semantics::SubParserModel;
use crate::semantics::bail_prefix;
use crate::semantics::hash_prefix;
use crate::semantics::init_model;
use crate::semantics::nested_version_prefix;
use crate::semantics::not_ok_prefix;
use crate::semantics::ok_prefix;
use crate::semantics::plan_prefix;
use crate::semantics::pragma_prefix;
use crate::semantics::spaces;
use crate::semantics::spec_parse;
use crate::semantics::spec_run;
use crate::semantics::spec_step;
use crate::semantics::step_body;
use crate::semantics::step_plan;
use crate::semantics::step_subtest;
use crate::semantics::step_yaml;
use crate::semantics::subtest_prefix;
use crate::semantics::version_prefix;
use crate::semantics::version_value;
use crate::semantics::yaml_close_line;
use crate::semantics::yaml_open_line;
use crate::text::find_char;
use crate::text::has_prefix;
use crate::text::split_lines;
use crate::text::str_eq;
use crate::text::str_has_prefix;
use crate::text::str_has_prefix_ci;
use crate::text::trim_str;

verus! {

/// The body state machine's state.
#[derive(Clone, Copy)]
enum State {
    Body,
    AfterTest,
    Yaml,
    Subtest,
}

impl View for State {
    type V = StateModel;

    closed spec fn view(&self) -> StateModel {
        match self {
            State::Body => StateModel::Body,
            State::AfterTest => StateModel::AfterTest,
            State::Yaml => StateModel::Yaml,
            State::Subtest => StateModel::Subtest,
        }
    }
}

/// A nested parser instance together with the subtest's remembered name.
struct SubTapParser {
    parser: Box<TapParser>,
    name: Option<String>,
}

/// Entry point of this library. This struct holds the document state while
/// parsing; one instance serves one document. You should only need to call
/// [`parse`](Self::parse).
///
/// Each open subtest is consumed by a nested instance, so recursion depth
/// equals the subtest nesting depth of the document.
pub struct TapParser {
    in_body: bool,
    done: bool,
    state: State,
    yaml_accumulator: Vec<String>,
    statements: Vec<TapStatement>,
    read_plan: bool,
    sub_parser: Option<SubTapParser>,
}

impl View for TapParser {
    type V = ParserModel;

    closed spec fn view(&self) -> ParserModel
        decreases self,
    {
        ParserModel {
            in_body: self.in_body,
            done: self.done,
            state: self.state@,
            yaml: self.yaml_accumulator.deep_view(),
            statements: stmts_view(self.statements@),
            read_plan: self.read_plan,
            sub: match &self.sub_parser {
                Some(sp) => Some(
                    SubParserModel {
                        parser: Box::new((*sp.parser).view()),
                        name: sp.name.deep_view(),
                    },
                ),
                None => None,
            },
        }
    }
}

impl TapParser {
    /// A fresh parser, ready to consume one document.
    pub fn new() -> (r: Self)
        ensures
            r@ == init_model(),
    {
        let r = TapParser {
            in_body: false,
            done: false,
            yaml_accumulator: Vec::new(),
            statements: Vec::new(),
            read_plan: false,
            state: State::Body,
            sub_parser: None,
        };
        proof {
            assert(r.yaml_accumulator.deep_view() =~= Seq::<Seq<char>>::empty());
            assert(r.statements@ =~= Seq::<TapStatement>::empty());
            assert(r@ =~= init_model());
        }
        r
    }

    /// Feed one body line to the state machine; the statement store, the
    /// flags and the nested instance move exactly as `spec_step` says.
    #[verifier::rlimit(60)]
    fn read_body_line(&mut self, line: &str) -> (r: Result<(), Error>)
        ensures
            ({
                let se = spec_step(old(self)@, line@);
                &&& final(self)@ == se.0
                &&& (match r {
                    Ok(()) => se.1 is None,
                    Err(e) => se.1 == Some(e@),
                })
            }),
        decreases line@.len(),
    {
        proof {
            broadcast use lemma_stmts_view;

            reveal_strlit("1..");
            reveal_strlit("ok");
            reveal_strlit("not ok");
            reveal_strlit("  ---");
            reveal_strlit("  ...");
            reveal_strlit("bail out!");
            reveal_strlit("# subtest");
            reveal_strlit("    ");
            reveal_strlit("  ");
            reveal_strlit("    TAP version");
            reveal_strlit("pragma ");
            reveal_strlit("#");
            reveal_strlit("14");
            assert("1.."@ =~= plan_prefix());
            assert("ok"@ =~= ok_prefix());
            assert("not ok"@ =~= not_ok_prefix());
            assert("  ---"@ =~= yaml_open_line());
            assert("  ..."@ =~= yaml_close_line());
            assert("bail out!"@ =~= bail_prefix());
            assert("# subtest"@ =~= subtest_prefix());
            assert("    "@ =~= spaces(4));
            assert("  "@ =~= spaces(2));
            assert("    TAP version"@ =~= nested_version_prefix());
            assert("pragma "@ =~= pragma_prefix());
            assert("#"@ =~= hash_prefix());
            assert("14"@ =~= version_value());
        }
        let len = line.unicode_len();
        if str_has_prefix(line, "1..") {
            if self.read_plan {
                return Err(Error::DuplicatedPlan);
            }
            let pr = line.substring_char(3, len);
            let prl = pr.unicode_len();
            let h = find_char(pr, 0, '#');
            let numtxt: String = if h < prl {
                trim_str(pr.substring_char(0, h))
            } else {
                trim_str(pr)
            };
            let reason: Option<String> = if h < prl {
                Some(trim_str(pr.substring_char(h + 1, prl)))
            } else {
                None
            };
            match crate::text::parse_usize(numtxt.as_str()) {
                Err(e) => {
                    return Err(Error::InvalidNumber(e));
                },
                Ok(count) => {
                    self.statements.push(TapStatement::Plan(TapPlan { count, reason }));
                    if self.in_body {
                        self.done = true;
                    } else {
                        self.in_body = true;
                    }
                    self.read_plan = true;
                    proof {
                        assert(self@.statements =~= step_plan(old(self)@, line@).0.statements);
                        assert(self@ =~= step_plan(old(self)@, line@).0);
                    }
                    return Ok(());
                },
            }
        }
        let st = self.state;
        let yaml_open = str_eq(line, "  ---");
        if matches!(st, State::AfterTest) && yaml_open {
            self.state = State::Yaml;
            proof {
                assert(self@ =~= spec_step(old(self)@, line@).0);
            }
            return Ok(());
        }
        match st {
            State::Subtest => {
                if str_has_prefix_ci(line, "bail out!") {
                    return Err(Error::Bailed(trim_str(line.substring_char(9, len))));
                }
                let is_ok = str_has_prefix(line, "ok");
                let is_not_ok = str_has_prefix(line, "not ok");
                if is_ok || is_not_ok {
                    match self.sub_parser.take() {
                        None => {
                            return Err(Error::Internal);
                        },
                        Some(sub) => {
                            let SubTapParser { parser, name } = sub;
                            let inner: TapParser = *parser;
                            proof {
                                // tie the nested instance just taken out to
                                // the one the transition function inspects
                                let p = old(self)@;
                                assert(spec_step(p, line@) == step_subtest(p, line@));
                                assert(*p.sub->Some_0.parser == inner@);
                            }
                            if !(inner.done || inner.read_plan) {
                                proof {
                                    assert(self@ =~= ParserModel { sub: None, ..old(self)@ });
                                }
                                return Err(Error::UnexpectedEOD);
                            }
                            let rest: String = if is_ok {
                                trim_str(line.substring_char(2, len))
                            } else {
                                trim_str(line.substring_char(6, len))
                            };
                            let ending = match read_test_line(is_ok, rest.as_str()) {
                                Err(e) => {
                                    proof {
                                        assert(self@ =~= ParserModel { sub: None, ..old(self)@ });
                                    }
                                    return Err(e);
                                },
                                Ok(t) => t,
                            };
                            let sd = TapSubDocument { name, statements: inner.statements, ending };
                            self.statements.push(TapStatement::Subtest(sd));
                            self.state = State::AfterTest;
                            proof {
                                assert(self@.statements =~= step_subtest(
                                    old(self)@,
                                    line@,
                                ).0.statements);
                                assert(self@ =~= step_subtest(old(self)@, line@).0);
                            }
                            return Ok(());
                        },
                    }
                }
                if !str_has_prefix(line, "    ") {
                    return Err(Error::Misindent { expected: 4, line: line.to_owned() });
                }
                if str_has_prefix(line, "    TAP version") {
                    let v = trim_str(line.substring_char(15, len));
                    if str_eq(v.as_str(), "14") {
                        return Ok(());
                    } else {
                        return Err(Error::InvalidVersion(v));
                    }
                }
                match self.sub_parser.take() {
                    None => {
                        return Err(Error::Internal);
                    },
                    Some(sub) => {
                        let SubTapParser { parser, name } = sub;
                        let mut inner: TapParser = *parser;
                        let r = inner.read_body_line(line.substring_char(4, len));
                        self.sub_parser = Some(SubTapParser { parser: Box::new(inner), name });
                        proof {
                            assert(self@ =~= step_subtest(old(self)@, line@).0);
                        }
                        return r;
                    },
                }
            },
            State::Yaml => {
                if str_eq(line, "  ...") {
                    match self.statements.pop() {
                        None => {
                            proof {
                                assert(self@ =~= old(self)@);
                            }
                            return Err(Error::Internal);
                        },
                        Some(stmt) => match stmt {
                            TapStatement::TestPoint(mut t) => {
                                let mut acc: Vec<String> = Vec::new();
                                core::mem::swap(&mut acc, &mut self.yaml_accumulator);
                                t.yaml = acc;
                                self.statements.push(TapStatement::TestPoint(t));
                                self.state = State::Body;
                                proof {
                                    assert(self.yaml_accumulator.deep_view() =~= Seq::<
                                        Seq<char>,
                                    >::empty());
                                    assert(self@.statements =~= step_yaml(
                                        old(self)@,
                                        line@,
                                    ).0.statements);
                                    assert(self@ =~= step_yaml(old(self)@, line@).0);
                                }
                                return Ok(());
                            },
                            TapStatement::Subtest(mut sd) => {
                                let mut acc: Vec<String> = Vec::new();
                                core::mem::swap(&mut acc, &mut self.yaml_accumulator);
                                sd.ending.yaml = acc;
                                self.statements.push(TapStatement::Subtest(sd));
                                self.state = State::Body;
                                proof {
                                    assert(self.yaml_accumulator.deep_view() =~= Seq::<
                                        Seq<char>,
                                    >::empty());
                                    assert(self@.statements =~= step_yaml(
                                        old(self)@,
                                        line@,
                                    ).0.statements);
                                    assert(self@ =~= step_yaml(old(self)@, line@).0);
                                }
                                return Ok(());
                            },
                            other => {
                                self.statements.push(other);
                                proof {
                                    assert(self@.statements =~= old(self)@.statements);
                                    assert(self@ =~= old(self)@);
                                }
                                return Err(Error::Internal);
                            },
                        },
                    }
                } else if !str_has_prefix(line, "  ") {
                    return Err(Error::Misindent { expected: 2, line: line.to_owned() });
                } else {
                    self.yaml_accumulator.push(line.substring_char(2, len).to_owned());
                    proof {
                        assert(self@.yaml =~= step_yaml(old(self)@, line@).0.yaml);
                        assert(self@ =~= step_yaml(old(self)@, line@).0);
                    }
                    return Ok(());
                }
            },
            State::Body | State::AfterTest => {
                self.in_body = true;
                let sub_open_indent = str_has_prefix(line, "    ");
                if sub_open_indent || str_has_prefix_ci(line, "# subtest") {
                    self.state = State::Subtest;
                    let name: Option<String> = if len > 0 && line.get_char(0) == '#' {
                        let c = find_char(line, 0, ':');
                        if c < len {
                            Some(trim_str(line.substring_char(c + 1, len)))
                        } else {
                            None
                        }
                    } else {
                        None
                    };
                    if sub_open_indent {
                        let mut inner = TapParser::new();
                        match inner.read_body_line(line.substring_char(4, len)) {
                            Err(e) => {
                                proof {
                                    assert(self@ =~= step_body(old(self)@, line@).0);
                                }
                                return Err(e);
                            },
                            Ok(()) => {
                                self.sub_parser = Some(
                                    SubTapParser { parser: Box::new(inner), name },
                                );
                                proof {
                                    assert(self@ =~= step_body(old(self)@, line@).0);
                                }
                                return Ok(());
                            },
                        }
                    } else {
                        self.sub_parser = Some(
                            SubTapParser { parser: Box::new(TapParser::new()), name },
                        );
                        proof {
                            assert(self@ =~= step_body(old(self)@, line@).0);
                        }
                        return Ok(());
                    }
                }
                if str_has_prefix(line, "ok") {
                    let rest = trim_str(line.substring_char(2, len));
                    match read_test_line(true, rest.as_str()) {
                        Err(e) => {
                            proof {
                                assert(self@ =~= step_body(old(self)@, line@).0);
                            }
                            return Err(e);
                        },
                        Ok(tp) => {
                            self.state = State::AfterTest;
                            self.statements.push(TapStatement::TestPoint(tp));
                            proof {
                                assert(self@.statements =~= step_body(
                                    old(self)@,
                                    line@,
                                ).0.statements);
                                assert(self@ =~= step_body(old(self)@, line@).0);
                            }
                            return Ok(());
                        },
                    }
                }
                if str_has_prefix(line, "not ok") {
                    let rest = trim_str(line.substring_char(6, len));
                    match read_test_line(false, rest.as_str()) {
                        Err(e) => {
                            proof {
                                assert(self@ =~= step_body(old(self)@, line@).0);
                            }
                            return Err(e);
                        },
                        Ok(tp) => {
                            self.state = State::AfterTest;
                            self.statements.push(TapStatement::TestPoint(tp));
                            proof {
                                assert(self@.statements =~= step_body(
                                    old(self)@,
                                    line@,
                                ).0.statements);
                                assert(self@ =~= step_body(old(self)@, line@).0);
                            }
                            return Ok(());
                        },
                    }
                }
                if yaml_open {
                    return Err(Error::InvalidYaml);
                }
                if str_eq(line, "  ...") {
                    return Err(Error::InvalidYamlClose);
                }
                if str_has_prefix_ci(line, "bail out!") {
                    return Err(Error::Bailed(trim_str(line.substring_char(9, len))));
                }
                if str_has_prefix(line, "#") {
                    self.statements.push(
                        TapStatement::Comment(trim_str(line.substring_char(1, len))),
                    );
                    proof {
                        assert(self@.statements =~= step_body(old(self)@, line@).0.statements);
                        assert(self@ =~= step_body(old(self)@, line@).0);
                    }
                    return Ok(());
                }
                let tl = trim_str(line);
                if tl.as_str().unicode_len() == 0 || str_has_prefix(line, "pragma ") {
                    return Ok(());
                }
                return Err(Error::UnknownLine(line.to_owned()));
            },
        }
    }

    /// Extract the statements accumulated so far, even after a failure; after
    /// an error they describe the document only up to the line that failed.
    pub fn statements(self) -> (r: Vec<TapStatement>)
        ensures
            stmts_view(r@) == self@.statements,
    {
        self.statements
    }

    /// Parse a whole TAP document into statements. On an error the statements
    /// read before it stay available through [`statements`](Self::statements).
    /// The parser is not meant to be reused after `parse` returns.
    #[verifier::rlimit(30)]
    pub fn parse(&mut self, input: &str) -> (r: Result<Vec<TapStatement>, Error>)
        ensures
            ({
                let pr = spec_parse(old(self)@, input@);
                &&& final(self)@ == pr.0
                &&& (match r {
                    Ok(v) => pr.1 == Ok::<Seq<StatementModel>, ErrorModel>(stmts_view(v@)),
                    Err(e) => pr.1 == Err::<Seq<StatementModel>, ErrorModel>(e@),
                })
            }),
    {
        proof {
            reveal_strlit("TAP version");
            reveal_strlit("14");
            assert("TAP version"@ =~= version_prefix());
            assert("14"@ =~= version_value());
        }
        let lines = split_lines(input);
        let n = lines.len();
        if n == 0 {
            return Err(Error::NoVersion);
        }
        let fl: &str = lines[0].as_str();
        proof {
            assert(fl@ == lines.deep_view()[0]);
        }
        if !str_has_prefix(fl, "TAP version") {
            return Err(Error::NoVersion);
        }
        let fl_len = fl.unicode_len();
        let v = trim_str(fl.substring_char(11, fl_len));
        if !str_eq(v.as_str(), "14") {
            return Err(Error::InvalidVersion(v));
        }
        let ghost p_start = self@;
        let ghost all = crate::text::spec_lines(input@);
        let ghost body = all.subrange(1, all.len() as int);
        proof {
            assert(body.subrange(0, body.len() as int) =~= body);
        }
        let mut i: usize = 1;
        while i < n && !self.done
            invariant
                1 <= i <= n,
                n == lines@.len(),
                lines.deep_view() == all,
                all == crate::text::spec_lines(input@),
                body == all.subrange(1, all.len() as int),
                all.len() > 0,
                has_prefix(all[0], version_prefix()),
                crate::text::spec_trim(all[0].subrange(11, all[0].len() as int))
                    == version_value(),
                p_start == old(self)@,
                spec_run(p_start, body) == spec_run(self@, body.subrange(i - 1, body.len() as int)),
            decreases n - i,
    {
            let line_s: &str = lines[i].as_str();
            proof {
                assert(line_s@ == lines.deep_view()[i as int]);
                assert(body.subrange(i - 1, body.len() as int)[0] == body[i - 1]);
                assert(body[i - 1] == all[i as int]);
            }
            let ghost pre = self@;
            let r = self.read_body_line(line_s);
            proof {
                let rest = body.subrange(i - 1, body.len() as int);
                let se = spec_step(pre, line_s@);
                assert(rest.len() > 0);
                assert(rest[0] == line_s@);
                assert(!pre.done);
                assert(spec_run(pre, rest) == (if se.1 is Some {
                    se
                } else {
                    spec_run(se.0, rest.subrange(1, rest.len() as int))
                }));
            }
            match r {
                Err(e) => {
                    proof {
                        let rest = body.subrange(i - 1, body.len() as int);
                        let se = spec_step(pre, line_s@);
                        assert(se == (self@, Some(e@)));
                        assert(spec_run(pre, rest) == se);
                        assert(spec_run(p_start, body) == (self@, Some(e@)));
                    }
                    return Err(e);
                },
                Ok(()) => {},
            }
            proof {
                let rest = body.subrange(i - 1, body.len() as int);
                let se = spec_step(pre, line_s@);
                assert(se.0 == self@ && se.1 is None);
                assert(rest.subrange(1, rest.len() as int) =~= body.subrange(
                    i as int,
                    body.len() as int,
                ));
                assert(spec_run(pre, rest) == spec_run(
                    self@,
                    body.subrange(i as int, body.len() as int),
                ));
            }
            i = i + 1;
        }
        proof {
            let rest = body.subrange(i - 1, body.len() as int);
            if self.done {
                assert(spec_run(self@, rest) == (self@, None::<ErrorModel>));
            } else {
                assert(i == n);
                assert(rest.len() == 0);
                assert(spec_run(self@, rest) == (self@, None::<ErrorModel>));
            }
            assert(spec_run(p_start, body) == (self@, None::<ErrorModel>));
        }
        if !(self.done || self.read_plan) {
            return Err(Error::UnexpectedEOD);
        }
        let mut out: Vec<TapStatement> = Vec::new();
        core::mem::swap(&mut out, &mut self.statements);
        proof {
            assert(stmts_view(self.statements@) =~= Seq::<StatementModel>::empty());
            assert(self@ =~= ParserModel {
                statements: Seq::empty(),
                ..spec_run(p_start, body).0
            });
        }
        Ok(out)
    }
}

impl Default for TapParser {
    /// The same as [`TapParser::new`].
    fn default() -> (r: Self)
        ensures
            r@ == init_model(),
    {
        Self::new()
    }
}

} // verus!
