//! IR-level errors: a type error wrapped with the span that triggered it and
//! a second span saying what it was because of.

use vstd::prelude::*;

use crate::span::SourceSpan;
use crate::typechk::error::TypeError;
use crate::typechk::error::TypeErrorV;

verus! {

#[derive(Debug)]
pub enum HirErrorKind {
    /// Neither an annotation nor an inferable initializer is available;
    /// `expr_start` is where the initializer would have begun.
    TypeAnnoNeeded { expr_start: SourceSpan },
    /// A type error, with the span it is because of (the annotation's span,
    /// or the offending sub-expression's).
    TypeError { err: TypeError, because_of: SourceSpan },
}

#[derive(Debug)]
pub struct HirError {
    pub kind: HirErrorKind,
    pub span: SourceSpan,
    pub label: Option<&'static str>,
}

/// The ghost shape of an IR-level error.
pub enum HirErrorKindV {
    TypeAnnoNeeded { expr_start: SourceSpan },
    TypeError { err: TypeErrorV, because_of: SourceSpan },
}

pub struct HirErrorV {
    pub kind: HirErrorKindV,
    pub span: SourceSpan,
}

impl View for HirError {
    type V = HirErrorV;

    open spec fn view(&self) -> HirErrorV {
        HirErrorV {
            kind: match &self.kind {
                HirErrorKind::TypeAnnoNeeded { expr_start } => HirErrorKindV::TypeAnnoNeeded {
                    expr_start: *expr_start,
                },
                HirErrorKind::TypeError { err, because_of } => HirErrorKindV::TypeError {
                    err: err@,
                    because_of: *because_of,
                },
            },
            span: self.span,
        }
    }
}

impl HirError {
    pub fn new(kind: HirErrorKind, span: SourceSpan) -> (r: Self)
        ensures
            r.kind == kind,
            r.span == span,
            r.label == None::<&'static str>,
    {
        HirError { kind, span, label: None }
    }

    pub fn type_anno_needed(span: SourceSpan, label: Option<&'static str>) -> (r: Self)
        ensures
            r@ == (HirErrorV {
                kind: HirErrorKindV::TypeAnnoNeeded { expr_start: span },
                span,
            }),
            r.label == label,
    {
        HirError { kind: HirErrorKind::TypeAnnoNeeded { expr_start: span }, span, label }
    }

    pub fn type_error(span: SourceSpan, err: TypeError, because_of: SourceSpan) -> (r: Self)
        ensures
            r@ == (HirErrorV {
                kind: HirErrorKindV::TypeError { err: err@, because_of },
                span,
            }),
            r.label == None::<&'static str>,
    {
        HirError { kind: HirErrorKind::TypeError { err, because_of }, span, label: None }
    }
}

} // verus!
