//! A strict conformance parser for version 14 of the Test Anything Protocol
//! (TAP): the line-oriented text format test runners use to report pass/fail
//! results, with nested subtests, inline directives, diagnostic blocks and a
//! bail-out signal.
//!
//! The entry point is [`TapParser`]: feed [`TapParser::parse`] a whole
//! document and receive the ordered sequence of [`TapStatement`]s, or the
//! first [`Error`] together with whatever statements were accumulated before
//! it (through [`TapParser::statements`]).
//!
//! The behaviour of the parser is specified by the transition functions in
//! [`semantics`] and the grammar functions in [`grammar`]; `parse` is proved
//! to follow them line by line, and [`laws`] states the properties that hold
//! of every document.
//!
//! Statements own their text: descriptions, reasons, comments and diagnostic
//! lines are copied out of the input, so a result stays valid after the
//! input buffer is gone. This trades the cost of those copies for the
//! simpler lifetime contract.

pub mod model;
pub mod text;
pub mod grammar;
pub mod semantics;
mod parser;
pub mod laws;

use vstd::prelude::*;

verus! {

pub use crate::model::DirectiveKind;
pub use crate::model::DirectiveModel;
pub use crate::model::Error;
pub use crate::model::ErrorModel;
pub use crate::model::NumberError;
pub use crate::model::PlanModel;
pub use crate::model::StatementModel;
pub use crate::model::SubDocumentModel;
pub use crate::model::TapDirective;
pub use crate::model::TapPlan;
pub use crate::model::TapStatement;
pub use crate::model::TapSubDocument;
pub use crate::model::TapTest;
pub use crate::model::TestModel;
pub use crate::model::stmts_view;
pub use crate::parser::TapParser;

} // verus!
