//! Lexical scanner for a small programming language: source text in,
//! span-tagged tokens out.
//!
//! The scanner itself lives in [`parser::lexer`]; its mathematical model, the
//! spec-level token stream that every scanning function is proved against,
//! lives in [`parser::scan`].
use vstd::prelude::*;

pub mod ast;
pub mod parser;

verus! {

/// Placeholder for the (separately specified) evaluator that will one day
/// consume the token stream. It owns no state yet.
#[derive(Debug)]
pub struct Vm {}

impl Default for Vm {
    fn default() -> (result: Vm)
        ensures
            result == (Vm {}),
    {
        Vm {}
    }
}

} // verus!
