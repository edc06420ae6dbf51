//! A tree-walking interpreter for a small dynamically typed scripting
//! language: scanner, recursive-descent parser, scoped environments and an
//! evaluator, each stated against a mathematical model.
use vstd::prelude::*;

pub mod ast_printer;
pub mod double;
pub mod environment;
pub mod error;
pub mod expr;
pub mod interpreter;
pub mod lox;
pub mod parser;
pub mod reef;
pub mod scanner;
pub mod stmt;
pub mod token;
pub mod value;

verus! {

} // verus!
