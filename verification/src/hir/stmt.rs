//! IR statements: local bindings with their resolved types.

use vstd::prelude::*;

use crate::hir::expr::Expression;
use crate::hir::ty::TypeAnno;
use crate::id::HirId;
use crate::span::SourceSpan;
use crate::typechk::ty::Type;

verus! {

#[derive(Debug)]
pub struct Statement {
    pub id: HirId,
    pub span: SourceSpan,
    pub kind: StatementKind,
}

#[derive(Debug)]
pub enum StatementKind {
    Local(Local),
}

/// A lowered binding. On the success path the resolved type is always
/// concrete: lowering fails rather than leaving it unset.
#[derive(Debug)]
pub struct Local {
    pub id: HirId,
    pub span: SourceSpan,
    pub expr: Option<Expression>,
    pub binding_flags: BindingFlags,
    pub pattern: BindingPattern,
    /// The surface annotation, if one was written. `None` is distinct from
    /// an explicit inference placeholder.
    pub type_anno: Option<TypeAnno>,
    /// The binding's resolved type.
    pub ty: Type,
}

#[derive(Debug)]
pub enum BindingPattern {
    Identifier(Identifier),
}

/// Settings for a declared local.
#[derive(Debug, Clone, Copy, PartialEq, Eq, Structural)]
pub struct BindingFlags {
    /// The local was declared as mutable, with the `var` keyword.
    pub mutable: bool,
}

#[derive(Debug)]
pub struct Identifier {
    pub name: Vec<u8>,
    pub span: SourceSpan,
}

} // verus!
