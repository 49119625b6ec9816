//! The type context: a persistent name-keyed environment seeded with the
//! builtin types, the two bidirectional judgments, and fresh type-variable
//! minting.

use vstd::prelude::*;

use crate::literal::LitV;
use crate::literal::LiteralKind;
use crate::typechk::error::TypeError;
use crate::typechk::error::TypeErrorV;
use crate::typechk::expr::TypeExpr;
use crate::typechk::expr::TypeExprV;
use crate::typechk::persist::EnvMap;
use crate::typechk::persist::ord_map_entries;
use crate::typechk::persist::ord_map_get;
use crate::typechk::persist::ord_map_insert;
use crate::typechk::persist::ord_map_new;
use crate::typechk::ty::SYM_BOOL;
use crate::typechk::ty::SYM_CHAR;
use crate::typechk::ty::SYM_FLOAT;
use crate::typechk::ty::SYM_INT;
use crate::typechk::ty::SYM_STRING;
use crate::typechk::ty::Type;
use crate::typechk::ty::builtin_bool;
use crate::typechk::ty::builtin_char;
use crate::typechk::ty::builtin_float;
use crate::typechk::ty::builtin_int;
use crate::typechk::ty::builtin_string;
use crate::typechk::var::Variable;

verus! {

// --- The reference judgments ------------------------------------------------

/// The builtin type of each literal kind.
pub open spec fn lit_type(l: LitV) -> Type {
    match l {
        LitV::Bool(_) => Type::Variable(Variable(SYM_BOOL)),
        LitV::Int(_) => Type::Variable(Variable(SYM_INT)),
        LitV::Char(_) => Type::Variable(Variable(SYM_CHAR)),
        LitV::Float(_) => Type::Variable(Variable(SYM_FLOAT)),
        LitV::Str(_) => Type::Variable(Variable(SYM_STRING)),
    }
}

/// Whether an expression holds no annotation node. The synthesis judgment is
/// defined only on such expressions.
pub open spec fn anno_free(e: TypeExprV) -> bool
    decreases e,
{
    match e {
        TypeExprV::Anno(_, _) => false,
        TypeExprV::Abs(_, body) => anno_free(*body),
        TypeExprV::App(f, a) => anno_free(*f) && anno_free(*a),
        _ => true,
    }
}

/// The synthesis judgment: derives a type bottom-up from the expression's
/// structure. Defined for annotation-free expressions; an annotation node
/// yields an unconstrained value.
pub open spec fn synth_spec(env: Map<u64, Type>, e: TypeExprV) -> Result<Type, TypeErrorV>
    decreases e,
{
    match e {
        TypeExprV::Unit => Ok(Type::Unit),
        TypeExprV::Var(v) => if env.dom().contains(v.0) {
            Ok(env[v.0])
        } else {
            Err(TypeErrorV::TypeUnknown(v))
        },
        TypeExprV::Lit(l) => Ok(lit_type(l)),
        TypeExprV::Abs(param, body) => if env.dom().contains(param.0) {
            match synth_spec(env, *body) {
                Ok(bt) => Ok(Type::Function(Box::new(env[param.0]), Box::new(bt))),
                Err(er) => Err(er),
            }
        } else {
            Err(TypeErrorV::TypeUnknown(param))
        },
        TypeExprV::App(f, a) => match synth_spec(env, *f) {
            Ok(ft) => match ft {
                Type::Function(input, output) => match synth_spec(env, *a) {
                    Ok(at) => if at == *input {
                        Ok(*output)
                    } else {
                        Err(
                            TypeErrorV::Mismatched {
                                expr: *a,
                                expected: *input,
                                found: at,
                            },
                        )
                    },
                    Err(er) => Err(er),
                },
                _ => Err(TypeErrorV::NotAFunction(*f)),
            },
            Err(er) => Err(er),
        },
        TypeExprV::Anno(_, _) => vstd::pervasive::arbitrary(),
    }
}

/// The expressions the checking judgment covers: unit, literals and
/// variables, and annotations over annotation-free expressions. Checking
/// abstractions and applications is not part of the system.
pub open spec fn checkable(e: TypeExprV) -> bool {
    match e {
        TypeExprV::Abs(_, _) => false,
        TypeExprV::App(_, _) => false,
        TypeExprV::Anno(inner, _) => anno_free(*inner),
        _ => true,
    }
}

/// The checking judgment: synthesizes the expression's type and requires
/// structural equality with the pushed-down type (for an annotation, with
/// the annotated type).
pub open spec fn check_spec(env: Map<u64, Type>, e: TypeExprV, against: Type) -> Result<
    Type,
    TypeErrorV,
> {
    match e {
        TypeExprV::Anno(inner, ty) => match synth_spec(env, *inner) {
            Ok(t) => if t == ty {
                Ok(ty)
            } else {
                Err(TypeErrorV::Mismatched { expr: *inner, expected: ty, found: t })
            },
            Err(er) => Err(er),
        },
        TypeExprV::Abs(_, _) => vstd::pervasive::arbitrary(),
        TypeExprV::App(_, _) => vstd::pervasive::arbitrary(),
        _ => match synth_spec(env, e) {
            Ok(t) => if t == against {
                Ok(t)
            } else {
                Err(TypeErrorV::Mismatched { expr: e, expected: against, found: t })
            },
            Err(er) => Err(er),
        },
    }
}

// --- The context ------------------------------------------------------------

/// The environment every fresh context starts from: the five builtin type
/// names, each bound to the type variable of its own name.
pub open spec fn builtin_env() -> Map<u64, Type> {
    Map::empty().insert(SYM_BOOL, Type::Variable(Variable(SYM_BOOL))).insert(
        SYM_INT,
        Type::Variable(Variable(SYM_INT)),
    ).insert(SYM_CHAR, Type::Variable(Variable(SYM_CHAR))).insert(
        SYM_FLOAT,
        Type::Variable(Variable(SYM_FLOAT)),
    ).insert(SYM_STRING, Type::Variable(Variable(SYM_STRING)))
}

pub open spec fn text_bool() -> Seq<u8> {
    seq![98u8, 111u8, 111u8, 108u8]
}

pub open spec fn text_int() -> Seq<u8> {
    seq![105u8, 110u8, 116u8]
}

pub open spec fn text_char() -> Seq<u8> {
    seq![99u8, 104u8, 97u8, 114u8]
}

pub open spec fn text_float() -> Seq<u8> {
    seq![102u8, 108u8, 111u8, 97u8, 116u8]
}

pub open spec fn text_string() -> Seq<u8> {
    seq![115u8, 116u8, 114u8, 105u8, 110u8, 103u8]
}

/// The intern table every fresh context starts from, in symbol order.
pub open spec fn builtin_names() -> Seq<Seq<u8>> {
    seq![text_bool(), text_int(), text_char(), text_float(), text_string()]
}

/// A persistent mapping from interned names to types, with a counter for
/// minting fresh type-variable names. The intern table maps each symbol (an
/// index) to its text; the environment maps symbols to slots of the type
/// store.
pub struct TypeContext {
    pub elems: EnvMap,
    pub types: Vec<Type>,
    pub names: Vec<Vec<u8>>,
    pub type_var: u64,
}

impl TypeContext {
    /// The raw environment entries: symbol to type-store slot.
    pub open spec fn entries(self) -> Map<u64, u64> {
        ord_map_entries(self.elems)
    }

    /// The environment as the judgments see it: symbol to type.
    pub open spec fn env(self) -> Map<u64, Type> {
        Map::new(
            |k: u64| self.entries().dom().contains(k),
            |k: u64| self.types@[self.entries()[k] as int],
        )
    }

    /// The intern table: each symbol's text.
    pub open spec fn names_view(self) -> Seq<Seq<u8>> {
        self.names@.map_values(|n: Vec<u8>| n@)
    }

    /// Every environment slot is in range, and interned texts are distinct.
    pub open spec fn wf(self) -> bool {
        &&& forall|k: u64|
            #[trigger] self.entries().dom().contains(k) ==> self.entries()[k]
                < self.types@.len()
        &&& forall|i: int, j: int|
            0 <= i < j < self.names_view().len() ==> self.names_view()[i] != self.names_view()[j]
    }
}

/// A context with the same environment, store and intern table as a
/// well-formed one is well-formed.
proof fn lemma_wf_same_parts(a: TypeContext, b: TypeContext)
    requires
        a.wf(),
        b.elems == a.elems,
        b.types == a.types,
        b.names == a.names,
    ensures
        b.wf(),
{
    assert(b.entries() == a.entries());
    assert(b.names_view() == a.names_view());
    assert forall|k: u64| #[trigger] b.entries().dom().contains(k) implies b.entries()[k]
        < b.types@.len() by {
        assert(a.entries().dom().contains(k));
    }
    assert forall|i: int, j: int|
        0 <= i < j < b.names_view().len() implies b.names_view()[i] != b.names_view()[j] by {
        assert(a.names_view()[i] != a.names_view()[j]);
    }
}

fn bytes_eq(a: &Vec<u8>, b: &Vec<u8>) -> (r: bool)
    ensures
        r == (a@ == b@),
{
    if a.len() != b.len() {
        proof {
            assert(a@ != b@);
        }
        return false;
    }
    let n = a.len();
    let mut i: usize = 0;
    while i < n
        invariant
            i <= n == a@.len() == b@.len(),
            forall|k: int| 0 <= k < i ==> a@[k] == b@[k],
        decreases n - i,
    {
        if a[i] != b[i] {
            return false;
        }
        i = i + 1;
    }
    proof {
        assert(a@ =~= b@);
    }
    true
}

impl Default for TypeContext {
    /// A fresh context: the five builtin type names interned and each bound
    /// to the type variable of its own name, with the fresh-variable counter
    /// at zero.
    fn default() -> (r: Self)
        ensures
            r.wf(),
            r.env() == builtin_env(),
            r.names_view() == builtin_names(),
            r.type_var == 0,
    {
        let mut elems = ord_map_new();
        let mut types: Vec<Type> = Vec::new();
        types.push(builtin_bool());
        types.push(builtin_int());
        types.push(builtin_char());
        types.push(builtin_float());
        types.push(builtin_string());
        ord_map_insert(&mut elems, SYM_BOOL, 0);
        ord_map_insert(&mut elems, SYM_INT, 1);
        ord_map_insert(&mut elems, SYM_CHAR, 2);
        ord_map_insert(&mut elems, SYM_FLOAT, 3);
        ord_map_insert(&mut elems, SYM_STRING, 4);
        let mut names: Vec<Vec<u8>> = Vec::new();
        let mut n0: Vec<u8> = Vec::new();
        n0.push(98);
        n0.push(111);
        n0.push(111);
        n0.push(108);
        names.push(n0);
        let mut n1: Vec<u8> = Vec::new();
        n1.push(105);
        n1.push(110);
        n1.push(116);
        names.push(n1);
        let mut n2: Vec<u8> = Vec::new();
        n2.push(99);
        n2.push(104);
        n2.push(97);
        n2.push(114);
        names.push(n2);
        let mut n3: Vec<u8> = Vec::new();
        n3.push(102);
        n3.push(108);
        n3.push(111);
        n3.push(97);
        n3.push(116);
        names.push(n3);
        let mut n4: Vec<u8> = Vec::new();
        n4.push(115);
        n4.push(116);
        n4.push(114);
        n4.push(105);
        n4.push(110);
        n4.push(103);
        names.push(n4);
        let r = TypeContext { elems, types, names, type_var: 0 };
        proof {
            assert(r.names_view().len() == 5);
            assert(r.names_view()[0] =~= text_bool());
            assert(r.names_view()[1] =~= text_int());
            assert(r.names_view()[2] =~= text_char());
            assert(r.names_view()[3] =~= text_float());
            assert(r.names_view()[4] =~= text_string());
            assert(r.names_view() =~= builtin_names());
            assert(r.env() =~= builtin_env());
        }
        r
    }
}

impl TypeContext {
    /// The type bound to a symbol, if the symbol is bound.
    fn lookup(&self, sym: u64) -> (r: Option<Type>)
        requires
            self.wf(),
        ensures
            match r {
                Some(t) => self.env().dom().contains(sym) && t == self.env()[sym],
                None => !self.env().dom().contains(sym),
            },
    {
        match ord_map_get(&self.elems, sym) {
            Some(idx) => {
                proof {
                    assert(self.entries().dom().contains(sym));
                    assert(idx < self.types@.len());
                    assert(self.env()[sym] == self.types@[idx as int]);
                }
                if idx < self.types.len() as u64 {
                    Some(self.types[idx as usize].clone())
                } else {
                    proof {
                        assert(false);
                    }
                    None
                }
            },
            None => {
                proof {
                    assert(!self.env().dom().contains(sym));
                }
                None
            },
        }
    }

    /// Interns a name, reusing the symbol of an already-interned equal text.
    #[verifier::rlimit(50)]
    pub fn intern(&mut self, name: Vec<u8>) -> (r: u64)
        requires
            old(self).wf(),
        ensures
            final(self).wf(),
            final(self).elems == old(self).elems,
            final(self).types == old(self).types,
            final(self).type_var == old(self).type_var,
            final(self).env() == old(self).env(),
            r < final(self).names_view().len(),
            final(self).names_view()[r as int] == name@,
            if exists|i: int|
                0 <= i < old(self).names_view().len() && old(self).names_view()[i] == name@ {
                final(self).names_view() == old(self).names_view()
            } else {
                final(self).names_view() == old(self).names_view().push(name@) && r
                    == old(self).names_view().len()
            },
    {
        let n = self.names.len();
        let mut i: usize = 0;
        while i < n
            invariant
                self == old(self),
                old(self).wf(),
                i <= n == self.names@.len(),
                forall|k: int| 0 <= k < i ==> self.names_view()[k] != name@,
            decreases n - i,
        {
            if bytes_eq(&self.names[i], &name) {
                proof {
                    assert(self.names_view()[i as int] == name@);
                    lemma_wf_same_parts(*old(self), *self);
                    assert(self.env() =~= old(self).env());
                }
                return i as u64;
            }
            proof {
                assert(self.names_view()[i as int] == self.names@[i as int]@);
            }
            i = i + 1;
        }
        let r = self.names.len() as u64;
        let ghost before = self.names_view();
        self.names.push(name);
        proof {
            assert(self.names_view() =~= before.push(name@));
            assert(self.env() =~= old(self).env());
            assert forall|k: u64| #[trigger] self.entries().dom().contains(k) implies self.entries()[k]
                < self.types@.len() by {
                assert(old(self).entries().dom().contains(k));
            }
            assert forall|a: int, b: int|
                0 <= a < b < self.names_view().len() implies self.names_view()[a]
                != self.names_view()[b] by {
                if b < before.len() {
                    assert(self.names_view()[a] == before[a]);
                    assert(self.names_view()[b] == before[b]);
                } else {
                    assert(self.names_view()[b] == name@);
                    assert(self.names_view()[a] == before[a]);
                }
            }
        }
        r
    }

    /// The decimal digits of `n`.
    pub open spec fn dec_digits(n: nat) -> Seq<u8>
        decreases n,
    {
        if n < 10 {
            seq![(48 + n) as u8]
        } else {
            Self::dec_digits(n / 10).push((48 + n % 10) as u8)
        }
    }

    /// Mints a fresh type variable: advances the counter and interns the
    /// decimal text of its new value as the variable's name.
    pub fn fresh_type_var(&mut self) -> (r: Variable)
        requires
            old(self).wf(),
            old(self).type_var < u64::MAX,
        ensures
            fresh_var_post(*old(self), *final(self), r),
    {
        self.type_var = self.type_var + 1;
        proof {
            lemma_wf_same_parts(*old(self), *self);
            assert(self.env() =~= old(self).env());
        }
        let text = u64_to_dec(self.type_var);
        let sym = self.intern(text);
        proof {
            assert(self.env() =~= old(self).env());
        }
        Variable(sym)
    }
}

/// What `fresh_type_var` does: the counter advances by one, the environment
/// stays as it is, and the intern table either already held the decimal text
/// of the new counter value or gains it as its last entry; the returned
/// variable is that text's symbol.
pub open spec fn fresh_var_post(pre: TypeContext, post: TypeContext, r: Variable) -> bool {
    let text = TypeContext::dec_digits((pre.type_var + 1) as nat);
    &&& post.wf()
    &&& post.env() == pre.env()
    &&& post.elems == pre.elems
    &&& post.types == pre.types
    &&& post.type_var == pre.type_var + 1
    &&& r.0 < post.names_view().len()
    &&& post.names_view()[r.0 as int] == text
    &&& if exists|i: int| 0 <= i < pre.names_view().len() && pre.names_view()[i] == text {
        post.names_view() == pre.names_view()
    } else {
        post.names_view() == pre.names_view().push(text) && r.0 == pre.names_view().len()
    }
}

/// Decimal texts of distinct values are distinct.
proof fn lemma_dec_digits_injective(a: nat, b: nat)
    requires
        a != b,
    ensures
        TypeContext::dec_digits(a) != TypeContext::dec_digits(b),
    decreases a + b,
{
    let da = TypeContext::dec_digits(a);
    let db = TypeContext::dec_digits(b);
    if a < 10 && b < 10 {
        assert(da[0] != db[0]);
    } else if a < 10 {
        assert(da.len() == 1);
        assert(db.len() == TypeContext::dec_digits(b / 10).len() + 1);
        assert(TypeContext::dec_digits(b / 10).len() >= 1);
    } else if b < 10 {
        assert(db.len() == 1);
        assert(da.len() == TypeContext::dec_digits(a / 10).len() + 1);
        assert(TypeContext::dec_digits(a / 10).len() >= 1);
    } else {
        if a % 10 != b % 10 {
            assert(da.last() != db.last());
        } else {
            assert(a / 10 != b / 10);
            lemma_dec_digits_injective((a / 10) as nat, (b / 10) as nat);
            if da == db {
                assert(da.drop_last() == TypeContext::dec_digits((a / 10) as nat));
                assert(db.drop_last() == TypeContext::dec_digits((b / 10) as nat));
                assert(false);
            }
        }
    }
}

/// Two successive fresh type variables of one context are distinct.
pub proof fn lemma_fresh_type_vars_distinct(
    c0: TypeContext,
    c1: TypeContext,
    c2: TypeContext,
    r1: Variable,
    r2: Variable,
)
    requires
        c0.type_var + 2 <= u64::MAX,
        fresh_var_post(c0, c1, r1),
        fresh_var_post(c1, c2, r2),
    ensures
        r1 != r2,
{
    let t1 = TypeContext::dec_digits((c0.type_var + 1) as nat);
    let t2 = TypeContext::dec_digits((c1.type_var + 1) as nat);
    lemma_dec_digits_injective((c0.type_var + 1) as nat, (c1.type_var + 1) as nat);
    assert(c2.names_view()[r1.0 as int] == t1);
    assert(c2.names_view()[r2.0 as int] == t2);
    if r1 == r2 {
        assert(false);
    }
}

fn u64_to_dec(n: u64) -> (r: Vec<u8>)
    ensures
        r@ == TypeContext::dec_digits(n as nat),
    decreases n,
{
    if n < 10 {
        let mut v: Vec<u8> = Vec::new();
        v.push(48 + n as u8);
        proof {
            assert(v@ =~= seq![(48 + n as nat) as u8]);
        }
        v
    } else {
        let mut v = u64_to_dec(n / 10);
        v.push(48 + (n % 10) as u8);
        v
    }
}

/// What `annotate` does: with a type-variable type the call is a reference,
/// resolved through the environment without changing it; with any other type
/// it binds the name, returning the previous binding if there was one and
/// the inserted type otherwise.
pub open spec fn annotate_post(
    pre: TypeContext,
    post: TypeContext,
    var: Variable,
    ty: Type,
    r: Result<Type, TypeError>,
) -> bool {
    &&& post.wf()
    &&& post.names_view() == pre.names_view()
    &&& post.type_var == pre.type_var
    &&& match ty {
        Type::Variable(tv) => {
            &&& post.env() == pre.env()
            &&& post.elems == pre.elems
            &&& post.types == pre.types
            &&& if pre.env().dom().contains(tv.0) {
                r == Ok::<Type, TypeError>(pre.env()[tv.0])
            } else {
                r == Err::<Type, TypeError>(TypeError::TypeNotFound(tv))
            }
        },
        _ => {
            &&& post.env() == pre.env().insert(var.0, ty)
            &&& r == Ok::<Type, TypeError>(
                if pre.env().dom().contains(var.0) {
                    pre.env()[var.0]
                } else {
                    ty
                },
            )
        },
    }
}

impl TypeContext {
    /// The synthesis judgment on an annotation-free expression: the result is
    /// exactly what the reference judgment derives.
    pub fn synthesise(&self, expr: &TypeExpr) -> (r: Result<Type, TypeError>)
        requires
            self.wf(),
            anno_free(expr@),
        ensures
            match r {
                Ok(t) => synth_spec(self.env(), expr@) == Ok::<Type, TypeErrorV>(t),
                Err(e) => synth_spec(self.env(), expr@) == Err::<Type, TypeErrorV>(e@),
            },
        decreases expr,
    {
        match expr {
            TypeExpr::Unit => Ok(Type::Unit),
            TypeExpr::Variable(v) => match self.lookup(v.0) {
                Some(t) => Ok(t),
                None => Err(TypeError::TypeUnknown(*v)),
            },
            TypeExpr::Literal(lit) => match lit {
                LiteralKind::Boolean(_) => Ok(builtin_bool()),
                LiteralKind::Integer(_) => Ok(builtin_int()),
                LiteralKind::Float(_) => Ok(builtin_float()),
                LiteralKind::Char(_) => Ok(builtin_char()),
                LiteralKind::String(_) => Ok(builtin_string()),
            },
            TypeExpr::Abstraction(param, body) => match self.lookup(param.0) {
                None => Err(TypeError::TypeUnknown(*param)),
                Some(pt) => match self.synthesise(&**body) {
                    Ok(bt) => Ok(Type::Function(Box::new(pt), Box::new(bt))),
                    Err(e) => Err(e),
                },
            },
            TypeExpr::Application(f, a) => match self.synthesise(&**f) {
                Err(e) => Err(e),
                Ok(ft) => match ft {
                    Type::Function(input, output) => match self.synthesise(&**a) {
                        Err(e) => Err(e),
                        Ok(at) => if at.ty_eq(&*input) {
                            Ok(*output)
                        } else {
                            Err(
                                TypeError::Mismatched {
                                    expr: (**a).clone(),
                                    expected: *input,
                                    found: at,
                                },
                            )
                        },
                    },
                    _ => Err(TypeError::NotAFunction((**f).clone())),
                },
            },
            TypeExpr::Annotation(_, _) => {
                proof {
                    assert(false);
                }
                Err(TypeError::UnitIsNotUnit)
            },
        }
    }

    /// The checking judgment: synthesizes the expression and requires
    /// structural equality with the pushed-down type; the result is exactly
    /// what the reference judgment gives.
    pub fn check(&self, expr: &TypeExpr, against: &Type) -> (r: Result<Type, TypeError>)
        requires
            self.wf(),
            checkable(expr@),
        ensures
            match r {
                Ok(t) => check_spec(self.env(), expr@, *against) == Ok::<Type, TypeErrorV>(t),
                Err(e) => check_spec(self.env(), expr@, *against) == Err::<Type, TypeErrorV>(e@),
            },
    {
        match expr {
            TypeExpr::Annotation(inner, ty) => match self.synthesise(&**inner) {
                Ok(t) => if t.ty_eq(ty) {
                    Ok(ty.clone())
                } else {
                    Err(
                        TypeError::Mismatched {
                            expr: (**inner).clone(),
                            expected: ty.clone(),
                            found: t,
                        },
                    )
                },
                Err(e) => Err(e),
            },
            TypeExpr::Abstraction(_, _) => {
                proof {
                    assert(false);
                }
                Err(TypeError::UnitIsNotUnit)
            },
            TypeExpr::Application(_, _) => {
                proof {
                    assert(false);
                }
                Err(TypeError::UnitIsNotUnit)
            },
            _ => match self.synthesise(expr) {
                Ok(t) => if t.ty_eq(against) {
                    Ok(t)
                } else {
                    Err(
                        TypeError::Mismatched {
                            expr: expr.clone(),
                            expected: against.clone(),
                            found: t,
                        },
                    )
                },
                Err(e) => Err(e),
            },
        }
    }

    /// Annotates a name with a type. A type-variable type is a reference,
    /// not a new binding: it resolves through the environment (so annotating
    /// with a builtin type name returns the existing builtin binding and
    /// leaves the environment unchanged). Any other type is bound to the
    /// name, and the previous binding, if any, is returned.
    #[verifier::rlimit(50)]
    pub fn annotate(&mut self, var: Variable, ty: Type) -> (r: Result<Type, TypeError>)
        requires
            old(self).wf(),
        ensures
            annotate_post(*old(self), *final(self), var, ty, r),
    {
        let is_var = match &ty {
            Type::Variable(_) => true,
            _ => false,
        };
        if is_var {
            let tv = match &ty {
                Type::Variable(tv) => *tv,
                _ => {
                    proof {
                        assert(false);
                    }
                    Variable(0)
                },
            };
            match self.lookup(tv.0) {
                Some(t) => Ok(t),
                None => Err(TypeError::TypeNotFound(tv)),
            }
        } else {
            let idx = self.types.len();
            let prev_ty = self.lookup(var.0);
            self.types.push(ty.clone());
            let _prev = ord_map_insert(&mut self.elems, var.0, idx as u64);
            proof {
                assert(self.names_view() == old(self).names_view());
                assert forall|a: int, b: int|
                    0 <= a < b < self.names_view().len() implies self.names_view()[a]
                    != self.names_view()[b] by {
                    assert(old(self).names_view()[a] != old(self).names_view()[b]);
                }
                assert forall|k: u64| #[trigger] self.entries().dom().contains(k) implies
                    self.entries()[k] < self.types@.len() by {
                    if k != var.0 {
                        assert(old(self).entries().dom().contains(k));
                    }
                }
                assert(self.env() =~= old(self).env().insert(var.0, ty)) by {
                    assert forall|k: u64| #[trigger] self.env().dom().contains(k) implies
                        self.env()[k] == old(self).env().insert(var.0, ty)[k] by {
                        if k == var.0 {
                            assert(self.entries()[k] == idx as u64);
                            assert(self.types@[idx as int] == ty);
                        } else {
                            assert(old(self).entries().dom().contains(k));
                            assert(self.entries()[k] == old(self).entries()[k]);
                            assert(self.types@[self.entries()[k] as int] == old(
                                self,
                            ).types@[old(self).entries()[k] as int]);
                        }
                    }
                }
            }
            match prev_ty {
                Some(t) => Ok(t),
                None => Ok(ty),
            }
        }
    }
}

} // verus!
