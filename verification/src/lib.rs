//! Front end of a small statically-typed expression language: lexing,
//! precedence-climbing parsing with recovery, and a bidirectional type
//! checker fused into the lowering from surface syntax to a typed IR.
//!
//! The pipeline: text, as bytes, goes through the lexer into a flat token
//! sequence; the parser builds a syntax tree of statements and expressions
//! while collecting diagnostics in a side list; lowering walks the tree,
//! drives the type context, and produces an IR in which every binding's type
//! is resolved or a structured error is handed back.

use vstd::prelude::*;

pub mod ast;
pub mod error;
pub mod hir;
pub mod id;
pub mod lexer;
pub mod literal;
pub mod location;
pub mod lowering;
pub mod parser;
pub mod source;
pub mod span;
pub mod token;
pub mod typechk;

pub use error::SyntaxError;
pub use error::SyntaxErrorKind;
pub use lexer::lex;
pub use lexer::lex_raw;
pub use literal::LiteralKind;
pub use location::LocationsDatabase;
pub use location::SyntaxLocation;
pub use parser::Parser;
pub use parser::parse;
pub use parser::parse_tokens;
pub use source::LineEnding;
pub use source::SourceFile;
pub use source::SourceFilePath;
pub use source::SourceMap;
pub use span::CheapRange;
pub use span::SourceId;
pub use span::SourceSpan;
pub use token::Delimiter;
pub use token::Token;
pub use token::TokenKind;

verus! {

} // verus!
