//! Types of the bidirectional system, and the builtin types every fresh
//! context is seeded with.

use vstd::prelude::*;

use crate::typechk::var::Variable;

verus! {

/// The symbols of the five builtin type names, in the order a fresh context
/// interns them.
pub const SYM_BOOL: u64 = 0;

pub const SYM_INT: u64 = 1;

pub const SYM_CHAR: u64 = 2;

pub const SYM_FLOAT: u64 = 3;

pub const SYM_STRING: u64 = 4;

/// A type: unit, a named variable, an existential, a universal
/// quantification, or a function type.
#[derive(Debug, PartialEq, Eq)]
pub enum Type {
    Unit,
    Variable(Variable),
    Existential(Variable),
    Quantification(Variable, Box<Type>),
    Function(Box<Type>, Box<Type>),
}

impl Clone for Type {
    fn clone(&self) -> (r: Self)
        ensures
            r == *self,
        decreases self,
    {
        match self {
            Type::Unit => Type::Unit,
            Type::Variable(v) => Type::Variable(*v),
            Type::Existential(v) => Type::Existential(*v),
            Type::Quantification(v, t) => Type::Quantification(*v, Box::new((**t).clone())),
            Type::Function(input, output) => Type::Function(
                Box::new((**input).clone()),
                Box::new((**output).clone()),
            ),
        }
    }
}

impl Type {
    pub fn var(v: Variable) -> (r: Self)
        ensures
            r == (Type::Variable(v)),
    {
        Type::Variable(v)
    }

    pub fn existential(v: Variable) -> (r: Self)
        ensures
            r == (Type::Existential(v)),
    {
        Type::Existential(v)
    }

    pub fn quantification(v: Variable, ty: Type) -> (r: Self)
        ensures
            r == (Type::Quantification(v, Box::new(ty))),
    {
        Type::Quantification(v, Box::new(ty))
    }

    pub fn function(input: Type, output: Type) -> (r: Self)
        ensures
            r == (Type::Function(Box::new(input), Box::new(output))),
    {
        Type::Function(Box::new(input), Box::new(output))
    }

    pub fn is_unit(&self) -> (r: bool)
        ensures
            r == (*self is Unit),
    {
        match self {
            Type::Unit => true,
            _ => false,
        }
    }

    /// Structural equality, usable from verified code.
    pub fn ty_eq(&self, other: &Type) -> (r: bool)
        ensures
            r == (*self == *other),
        decreases self,
    {
        match (self, other) {
            (Type::Unit, Type::Unit) => true,
            (Type::Variable(a), Type::Variable(b)) => a.0 == b.0,
            (Type::Existential(a), Type::Existential(b)) => a.0 == b.0,
            (Type::Quantification(a, t1), Type::Quantification(b, t2)) => a.0 == b.0 && (
            **t1).ty_eq(&**t2),
            (Type::Function(i1, o1), Type::Function(i2, o2)) => (**i1).ty_eq(&**i2) && (
            **o1).ty_eq(&**o2),
            _ => false,
        }
    }
}

pub fn builtin_bool() -> (r: Type)
    ensures
        r == (Type::Variable(Variable(SYM_BOOL))),
{
    Type::Variable(Variable(SYM_BOOL))
}

pub fn builtin_int() -> (r: Type)
    ensures
        r == (Type::Variable(Variable(SYM_INT))),
{
    Type::Variable(Variable(SYM_INT))
}

pub fn builtin_char() -> (r: Type)
    ensures
        r == (Type::Variable(Variable(SYM_CHAR))),
{
    Type::Variable(Variable(SYM_CHAR))
}

pub fn builtin_float() -> (r: Type)
    ensures
        r == (Type::Variable(Variable(SYM_FLOAT))),
{
    Type::Variable(Variable(SYM_FLOAT))
}

pub fn builtin_string() -> (r: Type)
    ensures
        r == (Type::Variable(Variable(SYM_STRING))),
{
    Type::Variable(Variable(SYM_STRING))
}

} // verus!
