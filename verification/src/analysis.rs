//! Semantic analyses that run over the parsed statements.

use vstd::prelude::*;
use crate::error::ParserErr;
use crate::nodes::AstNode;

verus! {

/// An analysis of the statements of a source text, which yields its
/// diagnostics.
pub trait PropsSemanticAnalyzer {
    fn analyze(&self, ast: &Vec<AstNode>) -> Vec<ParserErr>;
}

/// The type checker. It accepts every program.
pub struct PropsTypeChecker;

impl PropsSemanticAnalyzer for PropsTypeChecker {
    fn analyze(&self, ast: &Vec<AstNode>) -> (errs: Vec<ParserErr>)
        ensures
            errs@.len() == 0,
    {
        Vec::new()
    }
}

} // verus!
