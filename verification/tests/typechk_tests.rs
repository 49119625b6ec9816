use xva::literal::LiteralKind;
use xva::typechk::context::TypeContext;
use xva::typechk::error::TypeError;
use xva::typechk::error::TypeResult;
use xva::typechk::expr::TypeExpr;
use xva::typechk::subst::TypeVariable;
use xva::typechk::ty::Type;
use xva::typechk::ty::builtin_bool;
use xva::typechk::ty::builtin_char;
use xva::typechk::ty::builtin_float;
use xva::typechk::ty::builtin_int;
use xva::typechk::ty::builtin_string;
use xva::typechk::var::Variable;

#[test]
fn synth_literal() -> TypeResult<()> {
    let tcx = TypeContext::default();

    assert_eq!(
        tcx.synthesise(&TypeExpr::Literal(LiteralKind::Boolean(false)))?,
        builtin_bool()
    );

    assert_eq!(tcx.synthesise(&TypeExpr::Literal(LiteralKind::Integer(1)))?, builtin_int());

    assert_eq!(
        tcx.synthesise(&TypeExpr::Literal(LiteralKind::Float(b"1.0".to_vec())))?,
        builtin_float()
    );

    assert_eq!(tcx.synthesise(&TypeExpr::Literal(LiteralKind::Char(99)))?, builtin_char());
    assert_eq!(
        tcx.synthesise(&TypeExpr::Literal(LiteralKind::String(vec![104, 101, 108, 108, 111])))?,
        builtin_string()
    );

    Ok(())
}

#[test]
fn context_test() {
    let mut tcx = TypeContext::default();
    // let x: int
    let x = tcx.intern(b"x".to_vec());
    let x_type = builtin_int();
    let _ = tcx.annotate(Variable(x), x_type.clone());

    // x is annotated as int, so a boolean expression must not check
    let expr = TypeExpr::Literal(LiteralKind::Boolean(false));

    match tcx.check(&expr, &x_type) {
        Ok(t) => println!("{t:?}"),
        Err(e) => println!("{e:?}"),
    }
}

#[test]
fn annotating_with_builtin_reference_is_idempotent() {
    // Annotating x with the type variable `int` resolves through the builtin
    // binding rather than creating a new entry, and the resolution of `int`
    // itself does not change.
    let mut tcx = TypeContext::default();
    let int_sym = tcx.intern(b"int".to_vec());
    let x = tcx.intern(b"x".to_vec());

    let before = tcx.synthesise(&TypeExpr::var(Variable(int_sym))).unwrap();
    let annotated = tcx.annotate(Variable(x), Type::var(Variable(int_sym))).unwrap();
    let after = tcx.synthesise(&TypeExpr::var(Variable(int_sym))).unwrap();

    assert_eq!(annotated, before);
    assert_eq!(after, before);
    assert_eq!(before, builtin_int());

    // the reference did not bind x itself
    assert_eq!(
        tcx.synthesise(&TypeExpr::var(Variable(x))),
        Err(TypeError::TypeUnknown(Variable(x)))
    );
}

#[test]
fn annotating_with_unknown_type_variable_fails() {
    let mut tcx = TypeContext::default();
    let x = tcx.intern(b"x".to_vec());
    let ghost_ty = tcx.intern(b"spooky".to_vec());
    assert_eq!(
        tcx.annotate(Variable(x), Type::var(Variable(ghost_ty))),
        Err(TypeError::TypeNotFound(Variable(ghost_ty)))
    );
}

#[test]
fn annotating_with_concrete_type_binds_the_name() {
    let mut tcx = TypeContext::default();
    let f = tcx.intern(b"f".to_vec());
    let fun = Type::function(builtin_int(), builtin_bool());
    assert_eq!(tcx.annotate(Variable(f), fun.clone()), Ok(fun.clone()));
    assert_eq!(tcx.synthesise(&TypeExpr::var(Variable(f))), Ok(fun.clone()));
    // re-binding returns the previous binding
    let fun2 = Type::function(builtin_bool(), builtin_int());
    assert_eq!(tcx.annotate(Variable(f), fun2.clone()), Ok(fun));
    assert_eq!(tcx.synthesise(&TypeExpr::var(Variable(f))), Ok(fun2));
}

#[test]
fn application_and_abstraction_synthesise() {
    let mut tcx = TypeContext::default();
    let f = tcx.intern(b"f".to_vec());
    let x = tcx.intern(b"x".to_vec());
    let fun = Type::function(builtin_int(), builtin_bool());
    let _ = tcx.annotate(Variable(f), fun);
    let _ = tcx.annotate(Variable(x), Type::function(builtin_int(), builtin_int()));

    // f applied to an integer literal gives bool
    let app = TypeExpr::application(
        TypeExpr::var(Variable(f)),
        TypeExpr::Literal(LiteralKind::Integer(3)),
    );
    assert_eq!(tcx.synthesise(&app), Ok(builtin_bool()));

    // f applied to a boolean literal mismatches
    let bad = TypeExpr::application(
        TypeExpr::var(Variable(f)),
        TypeExpr::Literal(LiteralKind::Boolean(true)),
    );
    assert_eq!(
        tcx.synthesise(&bad),
        Err(TypeError::Mismatched {
            expr: TypeExpr::Literal(LiteralKind::Boolean(true)),
            expected: builtin_int(),
            found: builtin_bool(),
        })
    );

    // a non-function on the left is rejected
    let not_fun = TypeExpr::application(
        TypeExpr::Literal(LiteralKind::Integer(1)),
        TypeExpr::Literal(LiteralKind::Integer(2)),
    );
    assert_eq!(
        tcx.synthesise(&not_fun),
        Err(TypeError::NotAFunction(TypeExpr::Literal(LiteralKind::Integer(1))))
    );

    // \x. x with x bound to int -> int gives (int -> int) -> (int -> int)
    let abs = TypeExpr::abstraction(Variable(x), TypeExpr::var(Variable(x)));
    let xt = Type::function(builtin_int(), builtin_int());
    assert_eq!(tcx.synthesise(&abs), Ok(Type::function(xt.clone(), xt)));
}

#[test]
fn fresh_type_variables_advance() {
    let mut seed: u64 = 0;
    let a = TypeVariable::fresh(&mut seed);
    let b = TypeVariable::fresh(&mut seed);
    assert_eq!(a, TypeVariable(0));
    assert_eq!(b, TypeVariable(1));
    assert_eq!(seed, 2);
}
