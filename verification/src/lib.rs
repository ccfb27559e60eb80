//! Front end of a compiler for a small ML-like expression language:
//! a position-annotated abstract syntax tree, a recursive-descent parser
//! that builds it from source text, and the error and translation-unit
//! glue around them.

pub mod ast;
pub mod cli;
pub mod compiler;
pub mod error;
pub mod grammar;
pub mod parser;
pub mod translation_unit;
