//! Expressions of the bidirectional system.

use vstd::prelude::*;

use crate::literal::LitV;
use crate::literal::LiteralKind;
use crate::typechk::context::TypeContext;
use crate::typechk::error::TypeError;
use crate::typechk::context::annotate_post;
use crate::typechk::ty::Type;
use crate::typechk::var::Variable;

verus! {

/// An expression in the bidirectional system:
///
/// ```text
/// e ::= x        [variable]
///    | ()        [unit]
///    | lit       [literal]
///    | \x. e     [abstraction]
///    | e e       [application]
///    | (e : A)   [annotation]
/// ```
#[derive(Debug, PartialEq, Eq)]
pub enum TypeExpr {
    Variable(Variable),
    Unit,
    Literal(LiteralKind),
    Abstraction(Variable, Box<TypeExpr>),
    Application(Box<TypeExpr>, Box<TypeExpr>),
    Annotation(Box<TypeExpr>, Type),
}

/// The ghost shape of a type-system expression, with literal values viewed.
pub enum TypeExprV {
    Var(Variable),
    Unit,
    Lit(LitV),
    Abs(Variable, Box<TypeExprV>),
    App(Box<TypeExprV>, Box<TypeExprV>),
    Anno(Box<TypeExprV>, Type),
}

pub open spec fn type_expr_view(e: TypeExpr) -> TypeExprV
    decreases e,
{
    match e {
        TypeExpr::Variable(v) => TypeExprV::Var(v),
        TypeExpr::Unit => TypeExprV::Unit,
        TypeExpr::Literal(lit) => TypeExprV::Lit(lit@),
        TypeExpr::Abstraction(param, body) => TypeExprV::Abs(
            param,
            Box::new(type_expr_view(*body)),
        ),
        TypeExpr::Application(f, a) => TypeExprV::App(
            Box::new(type_expr_view(*f)),
            Box::new(type_expr_view(*a)),
        ),
        TypeExpr::Annotation(inner, ty) => TypeExprV::Anno(Box::new(type_expr_view(*inner)), ty),
    }
}

impl View for TypeExpr {
    type V = TypeExprV;

    open spec fn view(&self) -> TypeExprV {
        type_expr_view(*self)
    }
}

impl Clone for TypeExpr {
    fn clone(&self) -> (r: Self)
        ensures
            r@ == self@,
        decreases self,
    {
        match self {
            TypeExpr::Variable(v) => TypeExpr::Variable(*v),
            TypeExpr::Unit => TypeExpr::Unit,
            TypeExpr::Literal(lit) => TypeExpr::Literal(lit.clone()),
            TypeExpr::Abstraction(param, body) => TypeExpr::Abstraction(
                *param,
                Box::new((**body).clone()),
            ),
            TypeExpr::Application(f, a) => TypeExpr::Application(
                Box::new((**f).clone()),
                Box::new((**a).clone()),
            ),
            TypeExpr::Annotation(inner, ty) => TypeExpr::Annotation(
                Box::new((**inner).clone()),
                ty.clone(),
            ),
        }
    }
}

impl TypeExpr {
    pub fn var(v: Variable) -> (r: Self)
        ensures
            r@ == (TypeExprV::Var(v)),
    {
        TypeExpr::Variable(v)
    }

    pub fn abstraction(param: Variable, expr: TypeExpr) -> (r: Self)
        ensures
            r@ == (TypeExprV::Abs(param, Box::new(expr@))),
    {
        TypeExpr::Abstraction(param, Box::new(expr))
    }

    pub fn application(abs: TypeExpr, input: TypeExpr) -> (r: Self)
        ensures
            r@ == (TypeExprV::App(Box::new(abs@), Box::new(input@))),
    {
        TypeExpr::Application(Box::new(abs), Box::new(input))
    }
}

/// The context change `TypeExpr::annotation` makes for a variable
/// expression: some `annotate` call on the variable's own name.
pub open spec fn annotation_effect(
    pre: TypeContext,
    post: TypeContext,
    v: Variable,
    ty: Type,
) -> bool {
    exists|res: Result<Type, TypeError>| annotate_post(pre, post, v, ty, res)
}

impl TypeExpr {
    /// Builds an annotated expression `(e : A)`, registering the annotation
    /// in the context: a variable expression is annotated under its own
    /// name; any other expression under a freshly minted type variable.
    /// Unit and literal expressions take no annotation.
    pub fn annotation(expr: TypeExpr, ty: Type, tcx: &mut TypeContext) -> (r: Self)
        requires
            old(tcx).wf(),
            !(expr@ is Unit),
            !(expr@ is Lit),
            old(tcx).type_var < u64::MAX,
        ensures
            r@ == (TypeExprV::Anno(Box::new(expr@), ty)),
            final(tcx).wf(),
            expr@ matches TypeExprV::Var(v) ==> final(tcx).type_var == old(tcx).type_var
                && annotation_effect(*old(tcx), *final(tcx), v, ty),
            ty is Variable ==> final(tcx).env() == old(tcx).env(),
            !(ty is Variable) && !(expr@ is Var) ==> exists|v: Variable|
                final(tcx).env() == old(tcx).env().insert(#[trigger] v.0, ty),
    {
        let var: Variable = match &expr {
            TypeExpr::Variable(v) => *v,
            _ => tcx.fresh_type_var(),
        };
        let _ = tcx.annotate(var, ty.clone());
        TypeExpr::Annotation(Box::new(expr), ty)
    }
}

} // verus!
