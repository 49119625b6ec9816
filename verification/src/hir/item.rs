//! IR items.

use vstd::prelude::*;

use crate::hir::stmt::Statement;
use crate::id::HirId;
use crate::span::SourceSpan;

verus! {

#[derive(Debug)]
pub struct Item {
    pub id: HirId,
    pub kind: ItemKind,
    /// The item's start (inclusive) and end (exclusive) range, in byte
    /// offsets from the source text.
    pub span: SourceSpan,
}

#[derive(Debug)]
pub enum ItemKind {
    Statement(Statement),
    /// Carried over from an error placeholder of the syntax tree.
    Error(Vec<u8>),
}

} // verus!
