//! Lexical and syntactic diagnostics.
//!
//! These are recoverable: they are collected into a side list while the token
//! stream and the tree keep being built.

use vstd::prelude::*;

use crate::span::SourceSpan;

verus! {

#[derive(Debug, Clone, Copy, PartialEq, Eq, Structural)]
pub enum SyntaxErrorKind {
    /// A byte that cannot start any token.
    UnrecognisedCharacter,
    /// A numeric, character or string literal that does not follow the
    /// literal grammar (a radix prefix without digits, a bad escape, a
    /// literal whose closing quote never came, a value out of range).
    MalformedLiteral,
    /// The parser met a token that cannot continue any construct here.
    UnexpectedToken,
    /// An immutable (`let`) binding without an initializer; `expr_start` is
    /// the zero-width span just past the parsed statement, where the
    /// initializer would have begun.
    UninitedImmutable { expr_start: SourceSpan },
}

#[derive(Debug, Clone, Copy, PartialEq, Eq, Structural)]
pub struct SyntaxError {
    pub kind: SyntaxErrorKind,
    pub span: SourceSpan,
}

impl SyntaxError {
    pub fn new(kind: SyntaxErrorKind, span: SourceSpan) -> (r: Self)
        ensures
            r == (SyntaxError { kind, span }),
    {
        SyntaxError { kind, span }
    }
}

} // verus!
