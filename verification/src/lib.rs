//! Front end of an interpreter for a small dynamically-typed expression
//! language: a lexer that turns source text into tokens, a recursive-descent
//! parser that builds expression trees, and a tree-walking evaluator.
use vstd::prelude::*;

pub mod driver;
pub mod errors;
pub mod evaluate;
pub mod exprs;
pub mod numbers;
pub mod parser;
pub mod scanner;
pub mod tokens;
pub mod utils;

verus! {

/// Exit status shared by lexical and structural parse failures.
pub const ERROR_EXIT_CODE: i32 = 65;

} // verus!
