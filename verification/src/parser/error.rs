//! The closed set of lexical errors. Every scan failure is one of these four
//! kinds, located by a [`Span`]; any other unexpected input degrades to an
//! `Unknown` token instead of an error.
use vstd::prelude::*;

use crate::ast::span::Span;

verus! {

#[derive(Debug, Clone, Copy, PartialEq, Eq, Structural)]
pub enum LexerErrorKind {
    /// A number literal immediately followed by a bare `_` separator.
    NumberTrailingUnderScore,
    /// End of input reached before the closing `"` of a string literal.
    NonTerminatedStringLiteral,
    /// An `e`/`E` exponent marker with no digits after it.
    MissingExponentValue,
    /// A radix prefix (`0x`, `0o`, `0b`) with no digits after it.
    EmptyRadix,
}

#[derive(Debug, Clone, Copy, PartialEq, Eq, Structural)]
pub struct LexerError {
    pub kind: LexerErrorKind,
    pub location: Span,
}

/// The mathematical shape of a lexer error: its kind and the interval of
/// source positions it points at.
pub struct LexerErrorView {
    pub kind: LexerErrorKind,
    pub start: int,
    pub end: int,
}

impl View for LexerError {
    type V = LexerErrorView;

    open spec fn view(&self) -> LexerErrorView {
        LexerErrorView {
            kind: self.kind,
            start: self.location.start as int,
            end: self.location.end as int,
        }
    }
}

} // verus!
