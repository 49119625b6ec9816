//! Type annotations in the intermediate representation.

use vstd::prelude::*;

use crate::ast::Name;
use crate::id::HirId;
use crate::span::SourceSpan;

verus! {

/// A type annotation carried over from the surface syntax.
#[derive(Debug)]
pub struct TypeAnno {
    pub id: HirId,
    pub kind: TypeKind,
    pub span: SourceSpan,
}

#[derive(Debug)]
pub enum TypeKind {
    /// The unit type, written `()`.
    Unit,
    /// The explicit placeholder for inference; distinct from not writing an
    /// annotation, though both trigger inference.
    Infer,
    /// The type referred to by the contained qualified name.
    Named(Name),
}

} // verus!
