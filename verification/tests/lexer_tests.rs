use xva::SourceId;
use xva::SyntaxErrorKind;
use xva::TokenKind;
use xva::lex;
use xva::lex_raw;

fn src_id() -> SourceId {
    SourceId::new(0)
}

#[test]
fn print() {
    let (tokens, _) = lex_raw(b"1+  2+3-4", src_id());
    println!("{tokens:#?}");
}

fn single_nontrivia_kind(input: &[u8]) -> TokenKind {
    let (tokens, _) = lex(input, src_id());
    assert_eq!(tokens.len(), 1, "expected one token");
    tokens.into_iter().next().unwrap().kind
}

#[test]
fn boolean_literal_true() {
    assert_eq!(single_nontrivia_kind(b"true"), TokenKind::Boolean(true));
}

#[test]
fn boolean_literal_false() {
    assert_eq!(single_nontrivia_kind(b"false"), TokenKind::Boolean(false));
}

fn assert_decimal_literal(input: &[u8]) {
    let (tokens, errors) = lex(input, src_id());
    assert_eq!(tokens.len(), 1);
    assert!(errors.is_empty());
    let t = &tokens[0];
    assert!(matches!(t.kind, TokenKind::Integer(_)));
    assert!(!t.raw.starts_with(b"0b") && !t.raw.starts_with(b"0o") && !t.raw.starts_with(b"0x"));
}

fn assert_binary_literal(input: &[u8]) {
    let (tokens, errors) = lex(input, src_id());
    assert_eq!(tokens.len(), 1);
    assert!(errors.is_empty());
    let t = &tokens[0];
    assert!(matches!(t.kind, TokenKind::Integer(_)));
    assert!(t.raw.starts_with(b"0b"));
}

#[test]
fn decimal_literals() {
    assert_decimal_literal(b"0");
    assert_decimal_literal(b"1");
    assert_decimal_literal(b"123");
    assert_decimal_literal(b"123");
    assert_decimal_literal(b"123_");
    assert_decimal_literal(b"1_2_3");
}

#[test]
fn binary_literal_zero() {
    assert_binary_literal(b"0b0");
}

#[test]
fn binary_literal_one() {
    assert_binary_literal(b"0b1");
}

#[test]
fn literals_binary_literal() {
    assert_binary_literal(b"0b1100");
}

#[test]
fn binary_literal_with_underscore() {
    assert_binary_literal(b"0b100_100");
}

#[test]
fn binary_literal_with_trailing_underscore() {
    assert_binary_literal(b"0b100_100_");
}

#[test]
#[should_panic]
fn binary_literal_without_prefix() {
    assert_binary_literal(b"0");
}

#[test]
fn numeric_literal_round_trip() {
    assert_eq!(single_nontrivia_kind(b"0b1011"), TokenKind::Integer(11));
    assert_eq!(single_nontrivia_kind(b"0o17"), TokenKind::Integer(15));
    assert_eq!(single_nontrivia_kind(b"0x1F"), TokenKind::Integer(31));
    assert_eq!(single_nontrivia_kind(b"123"), TokenKind::Integer(123));
    assert_eq!(single_nontrivia_kind(b"1_2_3"), TokenKind::Integer(123));
    assert_eq!(single_nontrivia_kind(b"123_"), TokenKind::Integer(123));
    assert_eq!(single_nontrivia_kind(b"0o123456"), TokenKind::Integer(42798));
    assert_eq!(single_nontrivia_kind(b"0x12AB"), TokenKind::Integer(4779));
}

fn assert_reconstructs(input: &[u8]) {
    let (tokens, _) = lex_raw(input, src_id());
    let mut rebuilt: Vec<u8> = Vec::new();
    let mut expected_start = 0usize;
    for t in &tokens {
        assert_eq!(t.span.range().start(), expected_start);
        expected_start = t.span.range().end();
        rebuilt.extend_from_slice(&t.raw);
    }
    assert_eq!(expected_start, input.len());
    assert_eq!(rebuilt, input);
}

#[test]
fn lexer_totality_reconstructs_input() {
    assert_reconstructs(b"let x: int = 1 + 2 * (3 - 4)");
    assert_reconstructs(b"");
    assert_reconstructs(&[0xff, b'a', b' ', 0xfe, 0xc3]);
    assert_reconstructs(b"\"unterminated");
    assert_reconstructs(b"'c' '\\x41' \"a\\u0042c\" // comment\n/* block */ 0b_ @ # 3.14");
}

#[test]
fn unrecognised_character_is_an_error_token() {
    let (tokens, errors) = lex(b"@", src_id());
    assert_eq!(tokens.len(), 1);
    assert!(matches!(tokens[0].kind, TokenKind::Unknown));
    assert_eq!(errors.len(), 1);
    assert_eq!(errors[0].kind, SyntaxErrorKind::UnrecognisedCharacter);
}

#[test]
fn radix_prefix_without_digits_is_malformed() {
    let (tokens, errors) = lex(b"0b", src_id());
    assert_eq!(tokens.len(), 1);
    assert!(matches!(tokens[0].kind, TokenKind::Unknown));
    assert_eq!(errors.len(), 1);
    assert_eq!(errors[0].kind, SyntaxErrorKind::MalformedLiteral);
}

#[test]
fn char_and_string_literals_decode_escapes() {
    assert_eq!(single_nontrivia_kind(b"'A'"), TokenKind::Char(65));
    assert_eq!(single_nontrivia_kind(b"'\\x41'"), TokenKind::Char(65));
    assert_eq!(single_nontrivia_kind(b"'\\u0041'"), TokenKind::Char(65));
    assert_eq!(
        single_nontrivia_kind(b"\"a\\x42c\""),
        TokenKind::String(vec![97, 66, 99])
    );
}

#[test]
fn unterminated_string_is_reported_not_fatal() {
    let (tokens, errors) = lex(b"\"abc", src_id());
    assert_eq!(tokens.len(), 1);
    assert!(matches!(tokens[0].kind, TokenKind::UnterminatedString));
    assert_eq!(errors.len(), 1);
    assert_eq!(errors[0].kind, SyntaxErrorKind::MalformedLiteral);
}

#[test]
fn float_literal_keeps_its_digits() {
    assert_eq!(single_nontrivia_kind(b"3.0"), TokenKind::Float(b"3.0".to_vec()));
    assert_eq!(single_nontrivia_kind(b"1_0.2_5"), TokenKind::Float(b"1_0.2_5".to_vec()));
}
