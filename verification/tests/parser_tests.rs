use xva::Parser;
use xva::SourceId;
use xva::SyntaxErrorKind;
use xva::ast::BinaryOperator;
use xva::ast::BindingKind;
use xva::ast::Expression;
use xva::ast::ExpressionKind;
use xva::ast::Item;
use xva::ast::ItemKind;
use xva::literal::LiteralKind;
use xva::ast::StatementKind;
use xva::ast::TypeKind;
use xva::lex;
use xva::parse;

fn src_id() -> SourceId {
    SourceId::new(0)
}

#[test]
fn lib_test() {
    let (items, errors) = parse(b"let x: mutable boolean = false", src_id());
    println!("{items:#?}");
    println!("{errors:#?}");
}

fn no_errors(input: &[u8]) {
    let (items, errors) = parse(input, src_id());
    assert!(errors.is_empty(), "unexpected diagnostics: {errors:?}");
    assert_eq!(items.len(), 1);
}

#[test]
fn decimal_literal() {
    no_errors(b"123");
}

#[test]
fn literal_binary_literal() {
    no_errors(b"0b1011");
}

#[test]
fn octal_literal() {
    no_errors(b"0o123456");
}

#[test]
fn hex_literal() {
    no_errors(b"0x12AB");
}

fn parse_type(input: &[u8]) -> xva::ast::TypeAnno {
    let (tokens, lex_errors) = lex(input, src_id());
    assert!(lex_errors.is_empty());
    let mut parser = Parser::new(tokens, src_id());
    parser.type_anno().expect("type annotation should parse")
}

#[test]
fn unit_type() {
    let ty = parse_type(b"()");
    match ty.kind {
        TypeKind::Unit => (),
        _ => panic!("type: {:#?}", ty.kind),
    }
}

#[test]
fn named_type_multiple_segments() {
    let ty = parse_type(b"std.module.item");
    match ty.kind {
        TypeKind::Named(name) => {
            if name.segments[0].ident().name != b"std".to_vec()
                || name.segments[1].ident().name != b"module".to_vec()
                || name.segments[2].ident().name != b"item".to_vec()
            {
                panic!("")
            }
        },
        _ => panic!("type: {:#?}", ty.kind),
    }
}

#[test]
fn named_type_one_segment() {
    let ty = parse_type(b"bool");
    match ty.kind {
        TypeKind::Named(name) => {
            if name.segments[0].ident().name != b"bool".to_vec() {
                panic!("")
            }
        },
        _ => panic!("type: {:#?}", ty.kind),
    }
}

fn parse_expression(input: &[u8]) -> Expression {
    let (mut items, errors) = parse(input, src_id());
    assert!(errors.is_empty());
    assert_eq!(items.len(), 1);
    match items.remove(0).kind {
        ItemKind::Expression(e) => e,
        other => panic!("expected an expression item, got {other:?}"),
    }
}

fn int_lit(e: &Expression) -> i128 {
    match &e.kind {
        ExpressionKind::Literal(LiteralKind::Integer(v)) => *v,
        other => panic!("expected an integer literal, got {other:?}"),
    }
}

#[test]
fn same_precedence_is_left_associative() {
    // 1 + 2 - 3 parses as (1 + 2) - 3
    let e = parse_expression(b"1 + 2 - 3");
    match e.kind {
        ExpressionKind::Binary(BinaryOperator::Subtract, left, right) => {
            assert_eq!(int_lit(&right), 3);
            match left.kind {
                ExpressionKind::Binary(BinaryOperator::Add, a, b) => {
                    assert_eq!(int_lit(&a), 1);
                    assert_eq!(int_lit(&b), 2);
                },
                other => panic!("expected 1 + 2 on the left, got {other:?}"),
            }
        },
        other => panic!("expected a subtraction at the top, got {other:?}"),
    }
}

#[test]
fn product_binds_tighter_than_sum() {
    // 1 + 2 * 3 parses as 1 + (2 * 3)
    let e = parse_expression(b"1 + 2 * 3");
    match e.kind {
        ExpressionKind::Binary(BinaryOperator::Add, left, right) => {
            assert_eq!(int_lit(&left), 1);
            match right.kind {
                ExpressionKind::Binary(BinaryOperator::Multiply, a, b) => {
                    assert_eq!(int_lit(&a), 2);
                    assert_eq!(int_lit(&b), 3);
                },
                other => panic!("expected 2 * 3 on the right, got {other:?}"),
            }
        },
        other => panic!("expected an addition at the top, got {other:?}"),
    }
}

#[test]
fn mixed_precedence_tree() {
    // 1 + 2 - 3 * 4 / 5 parses as (1 + 2) - ((3 * 4) / 5)
    let e = parse_expression(b"1 + 2 - 3 * 4 / 5");
    match e.kind {
        ExpressionKind::Binary(BinaryOperator::Subtract, left, right) => {
            assert!(matches!(left.kind, ExpressionKind::Binary(BinaryOperator::Add, _, _)));
            match right.kind {
                ExpressionKind::Binary(BinaryOperator::Divide, inner, five) => {
                    assert_eq!(int_lit(&five), 5);
                    assert!(matches!(
                        inner.kind,
                        ExpressionKind::Binary(BinaryOperator::Multiply, _, _)
                    ));
                },
                other => panic!("expected a division on the right, got {other:?}"),
            }
        },
        other => panic!("expected a subtraction at the top, got {other:?}"),
    }
}

fn local_of(item: &Item) -> &xva::ast::Local {
    match &item.kind {
        ItemKind::Statement(st) => match &st.kind {
            StatementKind::Local(l) => l,
        },
        other => panic!("expected a statement item, got {other:?}"),
    }
}

#[test]
fn uninitialized_immutable_binding_is_rejected() {
    // "let x" yields zero valid locals and exactly one diagnostic
    let (items, errors) = parse(b"let x", src_id());
    assert_eq!(items.len(), 1);
    assert!(matches!(items[0].kind, ItemKind::Error(_)));
    let uninited: Vec<_> = errors
        .iter()
        .filter(|e| matches!(e.kind, SyntaxErrorKind::UninitedImmutable { .. }))
        .collect();
    assert_eq!(uninited.len(), 1);
}

#[test]
fn uninitialized_mutable_binding_is_valid() {
    let (items, errors) = parse(b"var x", src_id());
    assert!(errors.is_empty());
    assert_eq!(items.len(), 1);
    let local = local_of(&items[0]);
    assert!(local.binding_flags.mutable);
    assert!(matches!(local.binding_kind, BindingKind::Declared));
}

#[test]
fn annotated_initialized_binding_parses() {
    let (items, errors) = parse(b"let answer: int = 42", src_id());
    assert!(errors.is_empty());
    assert_eq!(items.len(), 1);
    let local = local_of(&items[0]);
    assert!(!local.binding_flags.mutable);
    assert!(matches!(local.binding_kind, BindingKind::Inited(_)));
    assert!(local.ty.is_some());
}

#[test]
fn unexpected_token_recovers_with_error_item() {
    let (items, errors) = parse(b")", src_id());
    assert_eq!(items.len(), 1);
    assert!(matches!(items[0].kind, ItemKind::Error(_)));
    assert!(errors.iter().any(|e| e.kind == SyntaxErrorKind::UnexpectedToken));
}

#[test]
fn parenthesised_expressions_group() {
    // (1 + 2) * 3 parses with the sum inside the product
    let e = parse_expression(b"(1 + 2) * 3");
    match e.kind {
        ExpressionKind::Binary(BinaryOperator::Multiply, left, right) => {
            assert_eq!(int_lit(&right), 3);
            assert!(matches!(left.kind, ExpressionKind::Binary(BinaryOperator::Add, _, _)));
        },
        other => panic!("expected a product at the top, got {other:?}"),
    }
}
