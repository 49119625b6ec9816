//! Errors of the type system.

use vstd::prelude::*;

use crate::typechk::expr::TypeExpr;
use crate::typechk::expr::TypeExprV;
use crate::typechk::ty::Type;
use crate::typechk::var::Variable;

verus! {

pub type TypeResult<T> = Result<T, TypeError>;

#[derive(Debug, PartialEq, Eq)]
pub enum TypeError {
    /// The variable's type is not known: it is not bound in the environment.
    TypeUnknown(Variable),
    /// An annotation referenced a type variable that is not bound.
    TypeNotFound(Variable),
    /// The type is not well-formed. Declared, but not raised by the current
    /// judgments.
    Malformed(Type),
    /// The expression does not evaluate to unit. Declared, but not raised by
    /// the current judgments.
    UnitIsNotUnit,
    /// The expression's type differs from the expected one.
    Mismatched { expr: TypeExpr, expected: Type, found: Type },
    /// The left side of an application is not a function.
    NotAFunction(TypeExpr),
}

/// The ghost shape of a type error.
pub enum TypeErrorV {
    TypeUnknown(Variable),
    TypeNotFound(Variable),
    Malformed(Type),
    UnitIsNotUnit,
    Mismatched { expr: TypeExprV, expected: Type, found: Type },
    NotAFunction(TypeExprV),
}

impl View for TypeError {
    type V = TypeErrorV;

    open spec fn view(&self) -> TypeErrorV {
        match self {
            TypeError::TypeUnknown(v) => TypeErrorV::TypeUnknown(*v),
            TypeError::TypeNotFound(v) => TypeErrorV::TypeNotFound(*v),
            TypeError::Malformed(t) => TypeErrorV::Malformed(*t),
            TypeError::UnitIsNotUnit => TypeErrorV::UnitIsNotUnit,
            TypeError::Mismatched { expr, expected, found } => TypeErrorV::Mismatched {
                expr: expr@,
                expected: *expected,
                found: *found,
            },
            TypeError::NotAFunction(e) => TypeErrorV::NotAFunction(e@),
        }
    }
}

} // verus!
