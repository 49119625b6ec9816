//! Lowering from the syntax tree to the typed IR, driving the type context:
//! the bidirectional checking fused into the walk.
//!
//! `type_check_local_spec` is the reference account of how one binding's
//! final type is resolved — annotate with the converted annotation and check
//! the initializer against the result, or synthesize from the initializer
//! when no annotation was written — and of how the context's environment and
//! intern table move. The executable lowering is proved to match it exactly.

use vstd::prelude::*;

use crate::ast;
use crate::ast::clone_bytes;
use crate::ast::joined_segments;
use crate::ast::name_texts;
use crate::hir::HirContext;
use crate::hir::HirResult;
use crate::hir::error::HirError;
use crate::hir::error::HirErrorKindV;
use crate::hir::error::HirErrorV;
use crate::hir::expr::Expression;
use crate::hir::expr::ExpressionKind;
use crate::hir::expr::hir_expr_lit;
use crate::hir::item::Item;
use crate::hir::item::ItemKind;
use crate::hir::stmt::BindingFlags;
use crate::hir::stmt::BindingPattern;
use crate::hir::stmt::Identifier;
use crate::hir::stmt::Local;
use crate::hir::stmt::Statement;
use crate::hir::stmt::StatementKind;
use crate::hir::ty::TypeAnno;
use crate::hir::ty::TypeKind;
use crate::id::HirId;
use crate::literal::LitV;
use crate::parser::AnnoV;
use crate::parser::LocalV;
use crate::parser::statement_view;
use crate::span::SourceSpan;
use crate::typechk::context::check_spec;
use crate::typechk::context::lit_type;
use crate::typechk::error::TypeErrorV;
use crate::typechk::expr::TypeExpr;
use crate::typechk::expr::TypeExprV;
use crate::typechk::ty::Type;
use crate::typechk::var::Variable;

verus! {

// --- Interning, at the spec level -------------------------------------------

pub open spec fn has_name(names: Seq<Seq<u8>>, text: Seq<u8>) -> bool {
    exists|i: int| 0 <= i < names.len() && names[i] == text
}

/// The intern table after interning `text`.
pub open spec fn interned(names: Seq<Seq<u8>>, text: Seq<u8>) -> Seq<Seq<u8>> {
    if has_name(names, text) {
        names
    } else {
        names.push(text)
    }
}

/// The symbol `text` interns to: its index if already present, else the
/// index it is appended at.
pub open spec fn sym_of(names: Seq<Seq<u8>>, text: Seq<u8>) -> int {
    if has_name(names, text) {
        choose|i: int| 0 <= i < names.len() && names[i] == text
    } else {
        names.len() as int
    }
}

proof fn lemma_sym_of_found(names: Seq<Seq<u8>>, text: Seq<u8>, i: int)
    requires
        0 <= i < names.len(),
        names[i] == text,
        forall|a: int, b: int| 0 <= a < b < names.len() ==> names[a] != names[b],
    ensures
        sym_of(names, text) == i,
{
    assert(has_name(names, text));
    let j = choose|j: int| 0 <= j < names.len() && names[j] == text;
    if j < i {
        assert(names[j] != names[i]);
        assert(false);
    } else if i < j {
        assert(names[i] != names[j]);
        assert(false);
    }
}

// --- The reference account of resolving one binding -------------------------

/// The ghost outcome of resolving one binding: the result handed back, and
/// the environment and intern table the context is left with.
pub struct TcLocalSpec {
    pub result: Result<Type, HirErrorV>,
    pub env: Map<u64, Type>,
    pub names: Seq<Seq<u8>>,
}

/// How one binding's type is resolved, and how the context moves.
///
/// With an annotation: the annotation is converted (`()` to the unit type; a
/// qualified name, normalised and interned, to a type variable of that
/// name), the bound name is interned, and `annotate` runs — a type-variable
/// annotation resolves through the environment (failing with `TypeNotFound`
/// if the name is unbound) while any other type is bound; on success the
/// initializer is checked against the resolved type. Without an annotation,
/// the initializer's type is synthesized; with neither, resolution fails
/// needing an annotation.
pub open spec fn type_check_local_spec(
    env: Map<u64, Type>,
    names: Seq<Seq<u8>>,
    name0: Seq<u8>,
    anno: Option<AnnoV>,
    anno_span: SourceSpan,
    init: Option<LitV>,
    start: SourceSpan,
) -> TcLocalSpec {
    match anno {
        None => match init {
            None => TcLocalSpec {
                result: Err(
                    HirErrorV {
                        kind: HirErrorKindV::TypeAnnoNeeded { expr_start: start },
                        span: start,
                    },
                ),
                env,
                names,
            },
            Some(l) => TcLocalSpec { result: Ok(lit_type(l)), env, names },
        },
        Some(a) => {
            let conv: (Type, Seq<Seq<u8>>) = match a {
                AnnoV::Unit => (Type::Unit, names),
                AnnoV::Named(segs) => {
                    let t = joined_segments(segs);
                    (Type::Variable(Variable(sym_of(names, t) as u64)), interned(names, t))
                },
                AnnoV::Infer => vstd::pervasive::arbitrary(),
            };
            let converted = conv.0;
            let names1 = conv.1;
            let isym = sym_of(names1, name0) as u64;
            let names2 = interned(names1, name0);
            match converted {
                Type::Variable(tv) => if env.dom().contains(tv.0) {
                    let resolved = env[tv.0];
                    match init {
                        Some(l) => match check_spec(env, TypeExprV::Lit(l), resolved) {
                            Ok(t) => TcLocalSpec { result: Ok(t), env, names: names2 },
                            Err(er) => TcLocalSpec {
                                result: Err(
                                    HirErrorV {
                                        kind: HirErrorKindV::TypeError {
                                            err: er,
                                            because_of: anno_span,
                                        },
                                        span: start,
                                    },
                                ),
                                env,
                                names: names2,
                            },
                        },
                        None => vstd::pervasive::arbitrary(),
                    }
                } else {
                    TcLocalSpec {
                        result: Err(
                            HirErrorV {
                                kind: HirErrorKindV::TypeError {
                                    err: TypeErrorV::TypeNotFound(tv),
                                    because_of: anno_span,
                                },
                                span: anno_span,
                            },
                        ),
                        env,
                        names: names2,
                    }
                },
                _ => {
                    let env2 = env.insert(isym, converted);
                    let resolved = if env.dom().contains(isym) {
                        env[isym]
                    } else {
                        converted
                    };
                    match init {
                        Some(l) => match check_spec(env2, TypeExprV::Lit(l), resolved) {
                            Ok(t) => TcLocalSpec { result: Ok(t), env: env2, names: names2 },
                            Err(er) => TcLocalSpec {
                                result: Err(
                                    HirErrorV {
                                        kind: HirErrorKindV::TypeError {
                                            err: er,
                                            because_of: anno_span,
                                        },
                                        span: start,
                                    },
                                ),
                                env: env2,
                                names: names2,
                            },
                        },
                        None => vstd::pervasive::arbitrary(),
                    }
                },
            }
        },
    }
}

// --- What lowering accepts --------------------------------------------------

/// The bindings lowering is defined on: an annotated binding has an
/// initializer and no explicit inference placeholder, and initializers are
/// literal expressions (the current grammar lowers no other).
pub open spec fn local_lowerable(l: LocalV) -> bool {
    &&& (l.anno matches Some(a) ==> !(a is Infer) && l.init is Some)
    &&& (l.init matches Some(e) ==> e is Lit)
}

pub open spec fn item_lowerable(it: ast::Item) -> bool {
    match it.kind {
        ast::ItemKind::Statement(st) => local_lowerable(statement_view(st)),
        ast::ItemKind::Error(_) => true,
        _ => false,
    }
}

/// The literal an initializer holds.
pub open spec fn lit_of_init(init: Option<crate::ast::ExprV>) -> Option<LitV> {
    match init {
        Some(e) => match e {
            crate::ast::ExprV::Lit(l) => Some(l),
            _ => vstd::pervasive::arbitrary(),
        },
        None => None,
    }
}

// --- Views of lowered pieces ------------------------------------------------

pub open spec fn hir_anno_view(a: TypeAnno) -> AnnoV {
    match a.kind {
        TypeKind::Unit => AnnoV::Unit,
        TypeKind::Infer => AnnoV::Infer,
        TypeKind::Named(name) => AnnoV::Named(name_texts(name.segments@)),
    }
}

pub open spec fn hir_local_span_parts(l: ast::Local) -> (SourceSpan, SourceSpan) {
    (
        l.span,
        match l.ty {
            Some(a) => a.span,
            None => l.span,
        },
    )
}

// --- The executable lowering ------------------------------------------------

impl HirContext {
    /// Carries a surface type annotation into the IR, keeping its node id.
    fn lower_type_anno(&mut self, anno: ast::TypeAnno) -> (r: TypeAnno)
        ensures
            final(self).tcx == old(self).tcx,
            old(self).next_id <= final(self).next_id,
            hir_anno_view(r) == crate::parser::anno_view(anno),
            r.span == anno.span,
    {
        TypeAnno {
            id: HirId::from_node(anno.id),
            kind: match anno.kind {
                ast::TypeKind::Unit => TypeKind::Unit,
                ast::TypeKind::Infer => TypeKind::Infer,
                ast::TypeKind::Named(name) => TypeKind::Named(name),
            },
            span: anno.span,
        }
    }

    /// Lowers a literal initializer expression.
    fn lower_expr(&mut self, e: ast::Expression) -> (r: Expression)
        requires
            crate::ast::expr_view(e) is Lit,
        ensures
            final(self).tcx == old(self).tcx,
            old(self).next_id <= final(self).next_id,
            crate::ast::expr_view(e) matches crate::ast::ExprV::Lit(l) && hir_expr_lit(r) == l,
            r.span == e.span,
    {
        let kind = match e.kind {
            ast::ExpressionKind::Literal(lit) => ExpressionKind::Literal(lit),
            _ => {
                proof {
                    assert(false);
                }
                ExpressionKind::Literal(crate::literal::LiteralKind::Boolean(false))
            },
        };
        let id = self.next_hir_id();
        Expression { id, span: e.span, kind }
    }

    fn maybe_lower_expr(&mut self, e: Option<ast::Expression>) -> (r: Option<Expression>)
        requires
            e matches Some(inner) ==> crate::ast::expr_view(inner) is Lit,
        ensures
            final(self).tcx == old(self).tcx,
            old(self).next_id <= final(self).next_id,
            match e {
                Some(inner) => r matches Some(le) && Some(hir_expr_lit(le)) == lit_of_init(
                    Some(crate::ast::expr_view(inner)),
                ) && le.span == inner.span,
                None => r is None,
            },
    {
        match e {
            Some(inner) => Some(self.lower_expr(inner)),
            None => None,
        }
    }

    fn lower_binding_pattern(&mut self, p: ast::BindingPattern) -> (r: BindingPattern)
        ensures
            *final(self) == *old(self),
            match p {
                ast::BindingPattern::Identifier(id) => r matches BindingPattern::Identifier(h)
                    && h.name@ == id.name@ && h.span == id.span,
            },
    {
        match p {
            ast::BindingPattern::Identifier(id) => BindingPattern::Identifier(
                Identifier { name: id.name, span: id.span },
            ),
        }
    }

    /// Converts a lowered annotation to an internal type: `()` to the unit
    /// type, a qualified name to a type variable of the normalised, interned
    /// name. An explicit inference placeholder is not a valid annotation to
    /// convert.
    fn type_anno_into_type(&mut self, anno: &TypeAnno) -> (r: Type)
        requires
            old(self).tcx.wf(),
            !(anno.kind is Infer),
        ensures
            final(self).tcx.wf(),
            final(self).tcx.env() == old(self).tcx.env(),
            final(self).tcx.type_var == old(self).tcx.type_var,
            old(self).next_id <= final(self).next_id,
            match hir_anno_view(*anno) {
                AnnoV::Unit => r == Type::Unit && final(self).tcx.names_view() == old(
                    self,
                ).tcx.names_view(),
                AnnoV::Named(segs) => {
                    let t = joined_segments(segs);
                    &&& r == Type::Variable(
                        Variable(sym_of(old(self).tcx.names_view(), t) as u64),
                    )
                    &&& final(self).tcx.names_view() == interned(
                        old(self).tcx.names_view(),
                        t,
                    )
                },
                AnnoV::Infer => false,
            },
    {
        match &anno.kind {
            TypeKind::Unit => Type::Unit,
            TypeKind::Named(name) => {
                let text = name.normalise();
                let ghost t = text@;
                let ghost names0 = self.tcx.names_view();
                let s = self.tcx.intern(text);
                proof {
                    if has_name(names0, t) {
                        let i = choose|i: int| 0 <= i < names0.len() && names0[i] == t;
                        assert(self.tcx.names_view() == names0);
                        lemma_sym_of_found(names0, t, s as int);
                    } else {
                        assert(!has_name(names0, t));
                        assert(s as int == names0.len());
                    }
                    assert(self.tcx.names_view() == interned(names0, t));
                }
                Type::var(Variable(s))
            },
            TypeKind::Infer => {
                proof {
                    assert(false);
                }
                Type::Unit
            },
        }
    }

    /// Infers a binding's type from its initializer alone: synthesizes the
    /// literal's builtin type, or fails needing an annotation.
    fn type_infer(&self, start: SourceSpan, expr: &Option<Expression>) -> (r: HirResult<Type>)
        requires
            self.tcx.wf(),
        ensures
            match expr {
                Some(e) => r == Ok::<Type, HirError>(lit_type(hir_expr_lit(*e))),
                None => r matches Err(he) && he@ == (HirErrorV {
                    kind: HirErrorKindV::TypeAnnoNeeded { expr_start: start },
                    span: start,
                }),
            },
    {
        match expr {
            Some(e) => {
                let te = match &e.kind {
                    ExpressionKind::Literal(lit) => TypeExpr::Literal(lit.clone()),
                };
                match self.tcx.synthesise(&te) {
                    Ok(t) => Ok(t),
                    Err(err) => Err(HirError::type_error(start, err, e.span)),
                }
            },
            None => Err(HirError::type_anno_needed(start, None)),
        }
    }

    /// Resolves a binding's final type, driving the type context: annotate
    /// and check when an annotation is present, synthesize otherwise.
    #[verifier::rlimit(50)]
    fn type_check_local(
        &mut self,
        start: SourceSpan,
        pattern: &BindingPattern,
        anno: &Option<TypeAnno>,
        expr: &Option<Expression>,
    ) -> (r: HirResult<Type>)
        requires
            old(self).tcx.wf(),
            anno matches Some(a) ==> !(a.kind is Infer) && expr is Some,
        ensures
            final(self).tcx.wf(),
            old(self).next_id <= final(self).next_id,
            ({
                let name0 = match pattern {
                    BindingPattern::Identifier(id) => id.name@,
                };
                let annov = match anno {
                    Some(a) => Some(hir_anno_view(*a)),
                    None => None::<AnnoV>,
                };
                let anno_span = match anno {
                    Some(a) => a.span,
                    None => start,
                };
                let init = match expr {
                    Some(e) => Some(hir_expr_lit(*e)),
                    None => None::<LitV>,
                };
                let spec = type_check_local_spec(
                    old(self).tcx.env(),
                    old(self).tcx.names_view(),
                    name0,
                    annov,
                    anno_span,
                    init,
                    start,
                );
                &&& final(self).tcx.env() == spec.env
                &&& final(self).tcx.names_view() == spec.names
                &&& match r {
                    Ok(t) => spec.result == Ok::<Type, HirErrorV>(t),
                    Err(e) => spec.result == Err::<Type, HirErrorV>(e@),
                }
            }),
    {
        match anno {
            Some(a) => {
                let converted = self.type_anno_into_type(a);
                let ident = match pattern {
                    BindingPattern::Identifier(id) => id,
                };
                let ghost names1 = self.tcx.names_view();
                let isym = self.tcx.intern(clone_bytes(&ident.name));
                proof {
                    if has_name(names1, ident.name@) {
                        lemma_sym_of_found(names1, ident.name@, isym as int);
                    }
                    assert(self.tcx.names_view() == interned(names1, ident.name@));
                    assert(isym as int == sym_of(names1, ident.name@));
                }
                match self.tcx.annotate(Variable(isym), converted) {
                    Ok(resolved) => match expr {
                        Some(e) => {
                            let te = match &e.kind {
                                ExpressionKind::Literal(lit) => TypeExpr::Literal(lit.clone()),
                            };
                            match self.tcx.check(&te, &resolved) {
                                Ok(t) => Ok(t),
                                Err(err) => Err(HirError::type_error(start, err, a.span)),
                            }
                        },
                        None => {
                            proof {
                                assert(false);
                            }
                            Err(HirError::type_anno_needed(start, None))
                        },
                    },
                    Err(err) => Err(HirError::type_error(a.span, err, a.span)),
                }
            },
            None => self.type_infer(start, expr),
        }
    }

    /// Lowers one statement, resolving its binding's type. On success the
    /// lowered local carries a concrete resolved type; a type error aborts
    /// only this statement's lowering.
    #[verifier::rlimit(50)]
    pub fn lower_stmt(&mut self, stmt: ast::Statement) -> (r: HirResult<Item>)
        requires
            old(self).tcx.wf(),
            local_lowerable(statement_view(stmt)),
        ensures
            final(self).tcx.wf(),
            old(self).next_id <= final(self).next_id,
            ({
                let l = statement_view(stmt);
                let spans = match stmt.kind {
                    ast::StatementKind::Local(loc) => hir_local_span_parts(loc),
                };
                let spec = type_check_local_spec(
                    old(self).tcx.env(),
                    old(self).tcx.names_view(),
                    l.name,
                    l.anno,
                    spans.1,
                    lit_of_init(l.init),
                    spans.0,
                );
                &&& final(self).tcx.env() == spec.env
                &&& final(self).tcx.names_view() == spec.names
                &&& match r {
                    Ok(item) => {
                        &&& spec.result matches Ok(t) && lowered_local_matches(
                            item,
                            l,
                            t,
                            spans.0,
                        )
                        &&& item.span == stmt.span
                    },
                    Err(e) => spec.result == Err::<Type, HirErrorV>(e@),
                }
            }),
    {
        match stmt.kind {
            ast::StatementKind::Local(local) => {
                let local_span = local.span;
                let type_anno: Option<TypeAnno> = match local.ty {
                    Some(a) => Some(self.lower_type_anno(a)),
                    None => None,
                };
                let init: Option<ast::Expression> = match local.binding_kind {
                    ast::BindingKind::Inited(e) => Some(*e),
                    ast::BindingKind::Declared => None,
                };
                let expr = self.maybe_lower_expr(init);
                let pattern = self.lower_binding_pattern(local.pattern);
                let ty = match self.type_check_local(local_span, &pattern, &type_anno, &expr) {
                    Ok(t) => t,
                    Err(e) => {
                        return Err(e);
                    },
                };
                let local_id = self.next_hir_id();
                let stmt_id = self.next_hir_id();
                let item_id = self.next_hir_id();
                Ok(
                    Item {
                        id: item_id,
                        kind: ItemKind::Statement(
                            Statement {
                                id: stmt_id,
                                span: stmt.span,
                                kind: StatementKind::Local(
                                    Local {
                                        id: local_id,
                                        span: local_span,
                                        expr,
                                        binding_flags: BindingFlags {
                                            mutable: local.binding_flags.mutable,
                                        },
                                        pattern,
                                        type_anno,
                                        ty,
                                    },
                                ),
                            },
                        ),
                        span: stmt.span,
                    },
                )
            },
        }
    }

    /// Lowers one top-level item: a statement is lowered and type-checked;
    /// an error placeholder is carried over unchanged.
    pub fn lower(&mut self, item: ast::Item) -> (r: HirResult<Item>)
        requires
            old(self).tcx.wf(),
            item_lowerable(item),
        ensures
            final(self).tcx.wf(),
            old(self).next_id <= final(self).next_id,
            match item.kind {
                ast::ItemKind::Error(_) => {
                    &&& final(self).tcx == old(self).tcx
                    &&& r matches Ok(it) && it.span == item.span && (it.kind matches
                        ItemKind::Error(m) && (item.kind matches ast::ItemKind::Error(m0)
                        && m@ == m0@))
                },
                ast::ItemKind::Statement(st) => {
                    let l = statement_view(st);
                    let spans = match st.kind {
                        ast::StatementKind::Local(loc) => hir_local_span_parts(loc),
                    };
                    let spec = type_check_local_spec(
                        old(self).tcx.env(),
                        old(self).tcx.names_view(),
                        l.name,
                        l.anno,
                        spans.1,
                        lit_of_init(l.init),
                        spans.0,
                    );
                    &&& final(self).tcx.env() == spec.env
                    &&& final(self).tcx.names_view() == spec.names
                    &&& match r {
                        Ok(it) => {
                            &&& spec.result matches Ok(t) && lowered_local_matches(
                                it,
                                l,
                                t,
                                spans.0,
                            )
                            &&& it.span == st.span
                        },
                        Err(e) => spec.result == Err::<Type, HirErrorV>(e@),
                    }
                },
                _ => true,
            },
    {
        match item.kind {
            ast::ItemKind::Statement(st) => self.lower_stmt(st),
            ast::ItemKind::Error(e) => {
                let id = self.next_hir_id();
                Ok(Item { id, kind: ItemKind::Error(e), span: item.span })
            },
            _ => {
                proof {
                    assert(false);
                }
                let id = self.next_hir_id();
                Ok(Item { id, kind: ItemKind::Error(Vec::new()), span: item.span })
            },
        }
    }
}

/// The lowered item mirrors the parsed binding — same mutability, bound
/// name, annotation shape, initializer literal and span — and carries the
/// resolved type.
pub open spec fn lowered_local_matches(item: Item, l: LocalV, t: Type, span: SourceSpan) -> bool {
    match item.kind {
        ItemKind::Statement(st) => match st.kind {
            StatementKind::Local(hl) => {
                &&& hl.ty == t
                &&& hl.span == span
                &&& st.span == item.span
                &&& hl.binding_flags.mutable == l.mutable
                &&& (match hl.pattern {
                    BindingPattern::Identifier(id) => id.name@ == l.name,
                })
                &&& (match hl.type_anno {
                    Some(a) => l.anno == Some(hir_anno_view(a)),
                    None => l.anno is None,
                })
                &&& (match hl.expr {
                    Some(e) => lit_of_init(l.init) == Some(hir_expr_lit(e)),
                    None => l.init is None,
                })
            },
        },
        _ => false,
    }
}

} // verus!

