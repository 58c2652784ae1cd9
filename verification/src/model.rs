//! Data model of a parsed TAP 14 document: the statement tree that parsing
//! produces, the error taxonomy, and the mathematical models (views) that the
//! contracts of the parser speak of.
use vstd::prelude::*;

verus! {

/// A plan line (`1..N`), with its optional trailing comment.
#[derive(Debug, PartialEq, Eq)]
pub struct TapPlan {
    pub count: usize,
    pub reason: Option<String>,
}

/// The kind of an inline directive on a test point.
#[derive(Debug, PartialEq, Eq, Clone, Copy)]
pub enum DirectiveKind {
    Skip,
    Todo,
}

/// An inline directive (`# skip ...` / `# todo ...`) on a test point.
#[derive(Debug, PartialEq, Eq)]
pub struct TapDirective {
    pub kind: DirectiveKind,
    pub reason: Option<String>,
}

/// One `ok` / `not ok` result line, together with the diagnostic block that
/// may be attached to it afterwards.
#[derive(Debug, PartialEq, Eq)]
pub struct TapTest {
    pub result: bool,
    pub number: Option<usize>,
    pub desc: Option<String>,
    pub directive: Option<TapDirective>,
    pub yaml: Vec<String>,
}

/// A completed subtest: the nested document's statements plus the unindented
/// result line that closed it.
#[derive(Debug, PartialEq, Eq)]
pub struct TapSubDocument {
    pub name: Option<String>,
    pub statements: Vec<TapStatement>,
    pub ending: TapTest,
}

/// One statement of a TAP document body.
#[derive(Debug, PartialEq, Eq)]
pub enum TapStatement {
    Plan(TapPlan),
    TestPoint(TapTest),
    Comment(String),
    Subtest(TapSubDocument),
}

/// Why a numeric field failed to parse.
#[derive(Debug, PartialEq, Eq, Clone, Copy)]
pub enum NumberError {
    /// The text was empty.
    Empty,
    /// A character was not an ASCII digit.
    InvalidDigit,
    /// The value does not fit in `usize`.
    Overflow,
}

/// The error taxonomy of the parser. The first error encountered at any
/// nesting depth aborts the whole parse and is returned to the caller.
#[derive(Debug, PartialEq, Eq)]
pub enum Error {
    /// The document has no `TAP version` first line.
    NoVersion,
    /// The version value is not `14`.
    InvalidVersion(String),
    /// The document (or a subtest) ended before a plan was read.
    UnexpectedEOD,
    /// A plan count or test-point number could not be read.
    InvalidNumber(NumberError),
    /// A directive token after `#` is empty, too short, or unknown.
    MalformedDirective(String),
    /// A line does not carry the indentation its position demands.
    Misindent { expected: usize, line: String },
    /// A diagnostic block opened without a preceding result line.
    InvalidYaml,
    /// A diagnostic block closed without an opening line.
    InvalidYamlClose,
    /// A `Bail out!` line aborted the document.
    Bailed(String),
    /// A line that fits no rule of the grammar.
    UnknownLine(String),
    /// A second plan line while one was already recorded.
    DuplicatedPlan,
    /// The state machine reached a configuration it cannot act on; reported
    /// instead of being silently tolerated.
    Internal,
}

// ---------------------------------------------------------------------------
// Mathematical models. Text is modelled as `Seq<char>`, sequences as `Seq`.
// ---------------------------------------------------------------------------

/// Model of [`TapPlan`].
#[verifier::ext_equal]
pub struct PlanModel {
    pub count: usize,
    pub reason: Option<Seq<char>>,
}

/// Model of [`TapDirective`].
#[verifier::ext_equal]
pub struct DirectiveModel {
    pub kind: DirectiveKind,
    pub reason: Option<Seq<char>>,
}

/// Model of [`TapTest`].
#[verifier::ext_equal]
pub struct TestModel {
    pub result: bool,
    pub number: Option<usize>,
    pub desc: Option<Seq<char>>,
    pub directive: Option<DirectiveModel>,
    pub yaml: Seq<Seq<char>>,
}

/// Model of [`TapSubDocument`].
#[verifier::ext_equal]
pub struct SubDocumentModel {
    pub name: Option<Seq<char>>,
    pub statements: Seq<StatementModel>,
    pub ending: TestModel,
}

/// Model of [`TapStatement`].
#[verifier::ext_equal]
pub enum StatementModel {
    Plan(PlanModel),
    TestPoint(TestModel),
    Comment(Seq<char>),
    Subtest(SubDocumentModel),
}

/// Model of [`Error`].
#[verifier::ext_equal]
pub enum ErrorModel {
    NoVersion,
    InvalidVersion(Seq<char>),
    UnexpectedEOD,
    InvalidNumber(NumberError),
    MalformedDirective(Seq<char>),
    Misindent { expected: usize, line: Seq<char> },
    InvalidYaml,
    InvalidYamlClose,
    Bailed(Seq<char>),
    UnknownLine(Seq<char>),
    DuplicatedPlan,
    Internal,
}

impl View for TapPlan {
    type V = PlanModel;

    open spec fn view(&self) -> PlanModel {
        PlanModel { count: self.count, reason: self.reason.deep_view() }
    }
}

impl View for TapDirective {
    type V = DirectiveModel;

    open spec fn view(&self) -> DirectiveModel {
        DirectiveModel { kind: self.kind, reason: self.reason.deep_view() }
    }
}

impl View for TapTest {
    type V = TestModel;

    open spec fn view(&self) -> TestModel {
        TestModel {
            result: self.result,
            number: self.number,
            desc: self.desc.deep_view(),
            directive: match &self.directive {
                Some(d) => Some(d@),
                None => None,
            },
            yaml: self.yaml.deep_view(),
        }
    }
}

impl View for TapSubDocument {
    type V = SubDocumentModel;

    open spec fn view(&self) -> SubDocumentModel
        decreases self,
    {
        SubDocumentModel {
            name: self.name.deep_view(),
            statements: stmts_view(self.statements@),
            ending: self.ending@,
        }
    }
}

impl View for TapStatement {
    type V = StatementModel;

    open spec fn view(&self) -> StatementModel
        decreases self,
    {
        match self {
            TapStatement::Plan(p) => StatementModel::Plan(p@),
            TapStatement::TestPoint(t) => StatementModel::TestPoint(t@),
            TapStatement::Comment(c) => StatementModel::Comment(c@),
            TapStatement::Subtest(s) => StatementModel::Subtest(s@),
        }
    }
}

/// The element-wise model of a sequence of statements.
pub open spec fn stmts_view(s: Seq<TapStatement>) -> Seq<StatementModel>
    decreases s,
{
    if s.len() == 0 {
        Seq::empty()
    } else {
        seq![s[0]@] + stmts_view(s.subrange(1, s.len() as int))
    }
}

/// `stmts_view` maps the sequence element by element.
pub broadcast proof fn lemma_stmts_view(s: Seq<TapStatement>)
    ensures
        (#[trigger] stmts_view(s)).len() == s.len(),
        forall|i: int| 0 <= i < s.len() ==> stmts_view(s)[i] == s[i]@,
    decreases s,
{
    if s.len() > 0 {
        let rest = s.subrange(1, s.len() as int);
        lemma_stmts_view(rest);
        assert(stmts_view(s) == seq![s[0]@] + stmts_view(rest));
        assert((seq![s[0]@]).len() == 1);
        assert forall|i: int| 0 <= i < s.len() implies stmts_view(s)[i] == s[i]@ by {
            if i > 0 {
                assert(stmts_view(s)[i] == (seq![s[0]@] + stmts_view(rest))[i]);
                assert((seq![s[0]@] + stmts_view(rest))[i] == stmts_view(rest)[i - 1]);
                assert(rest[i - 1] == s[i]);
            }
        }
    }
}

impl View for Error {
    type V = ErrorModel;

    open spec fn view(&self) -> ErrorModel {
        match self {
            Error::NoVersion => ErrorModel::NoVersion,
            Error::InvalidVersion(v) => ErrorModel::InvalidVersion(v@),
            Error::UnexpectedEOD => ErrorModel::UnexpectedEOD,
            Error::InvalidNumber(e) => ErrorModel::InvalidNumber(*e),
            Error::MalformedDirective(t) => ErrorModel::MalformedDirective(t@),
            Error::Misindent { expected, line } => ErrorModel::Misindent {
                expected: *expected,
                line: line@,
            },
            Error::InvalidYaml => ErrorModel::InvalidYaml,
            Error::InvalidYamlClose => ErrorModel::InvalidYamlClose,
            Error::Bailed(r) => ErrorModel::Bailed(r@),
            Error::UnknownLine(l) => ErrorModel::UnknownLine(l@),
            Error::DuplicatedPlan => ErrorModel::DuplicatedPlan,
            Error::Internal => ErrorModel::Internal,
        }
    }
}

} // verus!
