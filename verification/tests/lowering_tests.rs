use xva::SourceId;
use xva::hir::HirContext;
use xva::hir::error::HirError;
use xva::hir::error::HirErrorKind;
use xva::hir::item::Item;
use xva::hir::item::ItemKind;
use xva::hir::stmt::StatementKind;
use xva::parse;
use xva::typechk::error::TypeError;
use xva::typechk::ty::builtin_bool;
use xva::typechk::ty::builtin_float;
use xva::typechk::ty::builtin_int;
use xva::typechk::ty::Type;

fn lower_line(src: &str) -> Result<Item, HirError> {
    let (mut items, errors) = parse(src.as_bytes(), SourceId::new(0));
    assert!(errors.is_empty(), "parse diagnostics: {errors:?}");
    assert_eq!(items.len(), 1);
    let mut hcx = HirContext::new();
    hcx.lower(items.remove(0))
}

fn resolved_type(item: &Item) -> &Type {
    match &item.kind {
        ItemKind::Statement(st) => match &st.kind {
            StatementKind::Local(l) => &l.ty,
        },
        other => panic!("expected a lowered statement, got {other:?}"),
    }
}

#[test]
fn annotated_literal_agreement_succeeds() {
    // "let x: int = 1" lowers with resolved type int
    let item = lower_line("let x: int = 1").expect("lowering should succeed");
    assert_eq!(*resolved_type(&item), builtin_int());
}

#[test]
fn annotated_literal_disagreement_is_mismatched() {
    // "let x: int = true" fails with a mismatch: expected int, found bool
    let err = lower_line("let x: int = true").expect_err("lowering should fail");
    match err.kind {
        HirErrorKind::TypeError { err: TypeError::Mismatched { expected, found, .. }, .. } => {
            assert_eq!(expected, builtin_int());
            assert_eq!(found, builtin_bool());
        },
        other => panic!("expected a mismatch, got {other:?}"),
    }
}

#[test]
fn synthesis_without_annotation() {
    // "let x = 3.0" lowers with resolved type float, no annotation needed
    let item = lower_line("let x = 3.0").expect("lowering should succeed");
    assert_eq!(*resolved_type(&item), builtin_float());
}

#[test]
fn synthesis_of_other_literals() {
    assert_eq!(*resolved_type(&lower_line("var b = false").unwrap()), builtin_bool());
    assert_eq!(*resolved_type(&lower_line("var n = 0x2A").unwrap()), builtin_int());
}

#[test]
fn declared_mutable_without_initializer_needs_annotation() {
    // "var x" parses as a valid local but cannot be typed
    let err = lower_line("var x").expect_err("lowering should fail");
    assert!(matches!(err.kind, HirErrorKind::TypeAnnoNeeded { .. }));
}

#[test]
fn unknown_annotation_name_is_not_found() {
    let err = lower_line("let x: spooky = 1").expect_err("lowering should fail");
    match err.kind {
        HirErrorKind::TypeError { err: TypeError::TypeNotFound(_), .. } => (),
        other => panic!("expected an unbound type name, got {other:?}"),
    }
}

#[test]
fn error_items_are_carried_over() {
    let (mut items, errors) = parse(b"let x", SourceId::new(0));
    assert_eq!(items.len(), 1);
    assert_eq!(errors.len(), 1);
    let mut hcx = HirContext::new();
    let lowered = hcx.lower(items.remove(0)).expect("error items lower to error items");
    assert!(matches!(lowered.kind, ItemKind::Error(_)));
}

#[test]
fn type_errors_do_not_abort_later_items() {
    // a type error aborts only the one item; the next line still lowers
    let mut hcx = HirContext::new();
    let (mut items, _) = parse(b"let x: int = true", SourceId::new(0));
    assert!(hcx.lower(items.remove(0)).is_err());
    let (mut items2, _) = parse(b"let y: int = 2", SourceId::new(0));
    let ok = hcx.lower(items2.remove(0)).expect("second item should lower");
    assert_eq!(*resolved_type(&ok), builtin_int());
}

#[test]
fn qualified_annotation_names_are_normalised() {
    // "a.b" normalises to one dotted name; it is not a builtin, so lowering
    // reports it unbound
    let err = lower_line("let x: a.b = 1").expect_err("lowering should fail");
    assert!(matches!(
        err.kind,
        HirErrorKind::TypeError { err: TypeError::TypeNotFound(_), .. }
    ));
}
