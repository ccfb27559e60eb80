//! The parser's externally visible output: one source identifier paired
//! with the AST parsed from its text.

use vstd::prelude::*;

use crate::ast::Expr;

verus! {

/// An immutable pairing of a source identifier and its parsed AST root,
/// constructed only by the parser on success.
#[derive(Debug)]
pub struct TranslationUnit {
    pub file: String,
    pub ast: Expr,
}

} // verus!
