//! Front end and evaluator for a small dynamically typed scripting language.
//!
//! The pipeline has three stages: a lexical scanner that turns source bytes
//! into a token sequence, a recursive-descent parser that builds an abstract
//! syntax tree, and a tree-walking evaluator with lexically scoped,
//! block-structured variable storage.
//!
//! Runtime numbers are 64-bit signed integers; arithmetic that leaves their
//! range, and division by zero, are reported as runtime errors rather than
//! wrapping or panicking. Scanner and parser diagnostics are collected and
//! do not stop scanning or parsing; evaluation errors abort the whole run.

pub mod ast;
pub mod environment;
pub mod expression_parser;
pub mod interpreter;
pub mod parser;
pub mod stmt_parser;
pub mod scanner;
pub mod token;

use vstd::prelude::*;

verus! {

} // verus!
