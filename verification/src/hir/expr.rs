//! IR expressions. The current grammar lowers literal expressions only.

use vstd::prelude::*;

use crate::id::HirId;
use crate::literal::LitV;
use crate::literal::LiteralKind;
use crate::span::SourceSpan;

verus! {

#[derive(Debug, Clone, Copy, PartialEq, Eq, Structural)]
pub enum BinaryOp {
    Add,
    Subtract,
    Multiply,
    Divide,
    Modulo,
    Power,
}

#[derive(Debug, Clone, Copy, PartialEq, Eq, Structural)]
pub enum UnaryOp {
    Not,
    Negate,
}

#[derive(Debug)]
pub struct Expression {
    pub id: HirId,
    pub span: SourceSpan,
    pub kind: ExpressionKind,
}

#[derive(Debug)]
pub enum ExpressionKind {
    Literal(LiteralKind),
}

/// The literal an IR expression carries.
pub open spec fn hir_expr_lit(e: Expression) -> LitV {
    match e.kind {
        ExpressionKind::Literal(lit) => lit@,
    }
}

} // verus!
