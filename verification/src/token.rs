//! The flat, immutable token sequence produced by the lexer.

use vstd::prelude::*;

use crate::span::SourceSpan;

verus! {

/// Paired delimiters recognised by the lexer.
#[derive(Debug, Clone, Copy, PartialEq, Eq, Structural)]
pub enum Delimiter {
    Parentheses,
}

/// What a single token is.
///
/// Character literals carry their Unicode code point; string literals carry
/// decoded code points; float literals keep their source digits (the core
/// holds no floating-point values). The `Unterminated` kinds stand for
/// literals whose closing quote never came: they are distinct token kinds
/// rather than hard failures, so the parser can still produce a best-effort
/// tree.
#[derive(Debug, PartialEq, Eq)]
pub enum TokenKind {
    Let,
    Var,
    Identifier(Vec<u8>),
    Boolean(bool),
    Integer(i128),
    Float(Vec<u8>),
    Char(u32),
    String(Vec<u32>),
    UnterminatedChar,
    UnterminatedString,
    Equals,
    Colon,
    Plus,
    Minus,
    Star,
    DoubleStar,
    Slash,
    Percent,
    Not,
    EqualEqual,
    NotEqual,
    Less,
    LessEqual,
    Greater,
    GreaterEqual,
    Dot,
    OpenDelim(Delimiter),
    CloseDelim(Delimiter),
    Whitespace,
    Comment,
    Unknown,
}

impl TokenKind {
    /// Whether a token of this kind is discarded before the parser sees the
    /// token stream.
    pub open spec fn spec_is_trivia(&self) -> bool {
        self is Whitespace || self is Comment
    }

    #[verifier::when_used_as_spec(spec_is_trivia)]
    pub fn is_trivia(&self) -> (r: bool)
        ensures
            r == self.spec_is_trivia(),
    {
        match self {
            TokenKind::Whitespace => true,
            TokenKind::Comment => true,
            _ => false,
        }
    }
}

/// A single token: its kind, where it came from, and the raw source bytes it
/// covers.
#[derive(Debug)]
pub struct Token {
    pub kind: TokenKind,
    pub span: SourceSpan,
    pub raw: Vec<u8>,
}

} // verus!
