//! Literal values as they appear in tokens and in the syntax tree.

use vstd::prelude::*;

verus! {

/// The value carried by a literal token or literal expression.
///
/// Character literals carry their Unicode code point value; string literals
/// carry the sequence of code points after escape sequences are decoded.
/// Float literals keep their source digits as a fixed representation so that
/// literals can be compared for equality without any floating-point types.
#[derive(Debug, PartialEq, Eq)]
pub enum LiteralKind {
    Integer(i128),
    Boolean(bool),
    Char(u32),
    Float(Vec<u8>),
    String(Vec<u32>),
}

/// Ghost view of a literal value.
pub enum LitV {
    Int(int),
    Bool(bool),
    Char(u32),
    Float(Seq<u8>),
    Str(Seq<u32>),
}

impl View for LiteralKind {
    type V = LitV;

    open spec fn view(&self) -> LitV {
        match self {
            LiteralKind::Integer(v) => LitV::Int(*v as int),
            LiteralKind::Boolean(b) => LitV::Bool(*b),
            LiteralKind::Char(c) => LitV::Char(*c),
            LiteralKind::Float(digits) => LitV::Float(digits@),
            LiteralKind::String(points) => LitV::Str(points@),
        }
    }
}

impl Clone for LiteralKind {
    fn clone(&self) -> (r: Self)
        ensures
            r@ == self@,
    {
        match self {
            LiteralKind::Integer(v) => LiteralKind::Integer(*v),
            LiteralKind::Boolean(b) => LiteralKind::Boolean(*b),
            LiteralKind::Char(c) => LiteralKind::Char(*c),
            LiteralKind::Float(digits) => {
                let copy: Vec<u8> = digits.clone();
                proof {
                    assert(copy@ =~= digits@);
                }
                LiteralKind::Float(copy)
            },
            LiteralKind::String(points) => {
                let copy: Vec<u32> = points.clone();
                proof {
                    assert(copy@ =~= points@);
                }
                LiteralKind::String(copy)
            },
        }
    }
}

} // verus!
