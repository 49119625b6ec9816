//! The lexer: turns raw bytes into a flat, immutable token sequence.
//!
//! Lexing never fails: any byte sequence produces some token stream, with
//! unrecognised bytes captured as error tokens carrying their offending text
//! and location rather than aborting the whole scan. The produced tokens tile
//! the input exactly, so the concatenation of their raw text reconstructs the
//! input; and the contract runs in both directions — `kind_ok` says what a
//! token's kind means about its text, while `token_classified` says which
//! kind the byte at each token's start forces, so a numeric literal cannot
//! quietly come back as anything but its integer value, its float, or a
//! malformed-literal error.

use vstd::prelude::*;

use crate::error::SyntaxError;
use crate::error::SyntaxErrorKind;
use crate::span::CheapRange;
use crate::span::SourceId;
use crate::span::SourceSpan;
use crate::token::Delimiter;
use crate::token::Token;
use crate::token::TokenKind;

verus! {

// --- Byte classes -----------------------------------------------------------

pub open spec fn is_ws(b: u8) -> bool {
    b == 32 || b == 9 || b == 13 || b == 10
}

pub open spec fn is_digit(b: u8) -> bool {
    48 <= b <= 57
}

pub open spec fn is_ident_start(b: u8) -> bool {
    (97 <= b <= 122) || (65 <= b <= 90) || b == 95
}

pub open spec fn is_ident_continue(b: u8) -> bool {
    is_ident_start(b) || is_digit(b)
}

/// Whether `b` is a digit of the given radix (2, 8, 10 or 16); hexadecimal
/// digits may be upper or lower case.
pub open spec fn is_radix_digit(b: u8, radix: u8) -> bool {
    if radix == 16 {
        is_digit(b) || (97 <= b <= 102) || (65 <= b <= 70)
    } else {
        48 <= b < 48 + radix
    }
}

/// The numeric value of a digit byte.
pub open spec fn digit_val(b: u8) -> int {
    if is_digit(b) {
        b - 48
    } else if 97 <= b <= 102 {
        b - 87
    } else {
        b - 55
    }
}

/// The value of a run of digit bytes under `radix`, with `_` separator bytes
/// ignored.
pub open spec fn digits_value(s: Seq<u8>, radix: int) -> int
    decreases s.len(),
{
    if s.len() == 0 {
        0
    } else {
        let rest = digits_value(s.drop_last(), radix);
        if s.last() == 95 {
            rest
        } else {
            rest * radix + digit_val(s.last())
        }
    }
}

/// A non-empty run of digits of `radix` and `_` separators holding at least
/// one digit. A trailing separator is tolerated.
pub open spec fn digits_shape(s: Seq<u8>, radix: u8) -> bool {
    &&& forall|i: int| 0 <= i < s.len() ==> is_radix_digit(#[trigger] s[i], radix) || s[i] == 95
    &&& exists|i: int| 0 <= i < s.len() && is_radix_digit(#[trigger] s[i], radix)
}

/// The radix selected by the letter of a `0b`/`0o`/`0x` prefix.
pub open spec fn radix_of(b: u8) -> u8 {
    if b == 98 {
        2
    } else if b == 111 {
        8
    } else {
        16
    }
}

pub open spec fn has_radix_prefix(raw: Seq<u8>) -> bool {
    raw.len() >= 2 && raw[0] == 48 && (raw[1] == 98 || raw[1] == 111 || raw[1] == 120)
}

/// The raw text of a well-formed integer token: an optional `0b`/`0o`/`0x`
/// prefix selecting radix 2/8/16 (absence means decimal) followed by digits
/// of that radix with `_` separators.
pub open spec fn int_token_shape(raw: Seq<u8>) -> bool {
    if has_radix_prefix(raw) {
        digits_shape(raw.skip(2), radix_of(raw[1]))
    } else {
        raw.len() >= 1 && is_digit(raw[0]) && digits_shape(raw, 10)
    }
}

/// The radix an integer token's digits are read under.
pub open spec fn int_radix(raw: Seq<u8>) -> u8 {
    if has_radix_prefix(raw) {
        radix_of(raw[1])
    } else {
        10
    }
}

/// The parsed value of a well-formed integer token.
pub open spec fn int_token_value(raw: Seq<u8>) -> int {
    if has_radix_prefix(raw) {
        digits_value(raw.skip(2), radix_of(raw[1]) as int)
    } else {
        digits_value(raw, 10)
    }
}

/// The raw text of a float token: decimal digits, a `.`, then decimal digits,
/// each run tolerating `_` separators.
pub open spec fn float_token_shape(raw: Seq<u8>) -> bool {
    exists|k: int|
        0 < k < raw.len() && #[trigger] raw[k] == 46 && is_digit(raw[0]) && k + 1 < raw.len()
            && is_digit(raw[k + 1]) && digits_shape(raw.take(k), 10) && digits_shape(
            raw.skip(k + 1),
            10,
        )
}

/// The end of the maximal run of digits of `radix` and `_` separators
/// starting at `j`.
pub open spec fn digits_end(src: Seq<u8>, j: int, radix: u8) -> int
    decreases src.len() - j,
{
    if 0 <= j < src.len() && (is_radix_digit(src[j], radix) || src[j] == 95) {
        digits_end(src, j + 1, radix)
    } else {
        j
    }
}

/// What a numeric literal starting at `i` must become: an integer with its
/// radix-interpreted, separator-stripped value, a float, or an error token
/// when the shape (a radix prefix without a digit) or the range fails.
pub enum NumOutcome {
    Int(int),
    FloatLit,
    Bad,
}

/// The reference scan of a numeric literal at `i`: the outcome and the end
/// position. A `0b`/`0o`/`0x` prefix selects the radix; the digits run to
/// their maximal extent; a decimal run followed by `.` and a digit makes a
/// float; a prefix without digits, or a value beyond the largest literal,
/// is an error.
pub open spec fn sp_number(src: Seq<u8>, i: int) -> (NumOutcome, int) {
    if i + 1 < src.len() && src[i] == 48 && (src[i + 1] == 98 || src[i + 1] == 111 || src[i + 1]
        == 120) {
        let radix = radix_of(src[i + 1]);
        let e = digits_end(src, i + 2, radix);
        let seen = exists|k: int| i + 2 <= k < e && is_radix_digit(#[trigger] src[k], radix);
        let v = digits_value(src.subrange(i + 2, e), radix as int);
        if seen && v <= int_literal_max() {
            (NumOutcome::Int(v), e)
        } else {
            (NumOutcome::Bad, e)
        }
    } else {
        let e = digits_end(src, i, 10);
        if e < src.len() && src[e] == 46 && e + 1 < src.len() && is_digit(src[e + 1]) {
            (NumOutcome::FloatLit, digits_end(src, e + 1, 10))
        } else {
            let v = digits_value(src.subrange(i, e), 10);
            if v <= int_literal_max() {
                (NumOutcome::Int(v), e)
            } else {
                (NumOutcome::Bad, e)
            }
        }
    }
}

/// Whether a token's kind is the one the reference number scan demands.
pub open spec fn num_outcome_matches(k: TokenKind, o: NumOutcome) -> bool {
    match o {
        NumOutcome::Int(v) => k matches TokenKind::Integer(x) && x as int == v,
        NumOutcome::FloatLit => k is Float,
        NumOutcome::Bad => k is Unknown,
    }
}

/// Whether some token can start at a byte.
pub open spec fn starts_token(b: u8) -> bool {
    is_ws(b) || is_ident_start(b) || is_digit(b) || b == 39 || b == 34 || b == 47 || b == 61
        || b == 33 || b == 60 || b == 62 || b == 42 || b == 43 || b == 45 || b == 37 || b == 58
        || b == 46 || b == 40 || b == 41
}

// --- What each token kind says about its raw text ---------------------------

pub open spec fn kw_let() -> Seq<u8> {
    seq![108u8, 101u8, 116u8]
}

pub open spec fn kw_var() -> Seq<u8> {
    seq![118u8, 97u8, 114u8]
}

pub open spec fn kw_true() -> Seq<u8> {
    seq![116u8, 114u8, 117u8, 101u8]
}

pub open spec fn kw_false() -> Seq<u8> {
    seq![102u8, 97u8, 108u8, 115u8, 101u8]
}

pub open spec fn is_keyword_text(raw: Seq<u8>) -> bool {
    raw == kw_let() || raw == kw_var() || raw == kw_true() || raw == kw_false()
}

pub open spec fn ident_shape(raw: Seq<u8>) -> bool {
    &&& raw.len() >= 1
    &&& is_ident_start(raw[0])
    &&& forall|i: int| 0 <= i < raw.len() ==> is_ident_continue(#[trigger] raw[i])
}

/// The classification contract of the lexer: what a token's kind promises
/// about the raw text it covers.
pub open spec fn kind_ok(kind: TokenKind, raw: Seq<u8>) -> bool {
    match kind {
        TokenKind::Let => raw == kw_let(),
        TokenKind::Var => raw == kw_var(),
        TokenKind::Boolean(b) => raw == if b {
            kw_true()
        } else {
            kw_false()
        },
        TokenKind::Identifier(name) => name@ == raw && ident_shape(raw) && !is_keyword_text(raw),
        TokenKind::Integer(v) => int_token_shape(raw) && v as int == int_token_value(raw),
        TokenKind::Float(text) => text@ == raw && float_token_shape(raw),
        TokenKind::Char(_) => raw.len() >= 2 && raw[0] == 39 && raw.last() == 39,
        TokenKind::String(_) => raw.len() >= 2 && raw[0] == 34 && raw.last() == 34,
        TokenKind::UnterminatedChar => raw.len() >= 1 && raw[0] == 39,
        TokenKind::UnterminatedString => raw.len() >= 1 && raw[0] == 34,
        TokenKind::Equals => raw == seq![61u8],
        TokenKind::Colon => raw == seq![58u8],
        TokenKind::Plus => raw == seq![43u8],
        TokenKind::Minus => raw == seq![45u8],
        TokenKind::Star => raw == seq![42u8],
        TokenKind::DoubleStar => raw == seq![42u8, 42u8],
        TokenKind::Slash => raw == seq![47u8],
        TokenKind::Percent => raw == seq![37u8],
        TokenKind::Not => raw == seq![33u8],
        TokenKind::EqualEqual => raw == seq![61u8, 61u8],
        TokenKind::NotEqual => raw == seq![33u8, 61u8],
        TokenKind::Less => raw == seq![60u8],
        TokenKind::LessEqual => raw == seq![60u8, 61u8],
        TokenKind::Greater => raw == seq![62u8],
        TokenKind::GreaterEqual => raw == seq![62u8, 61u8],
        TokenKind::Dot => raw == seq![46u8],
        TokenKind::OpenDelim(_) => raw == seq![40u8],
        TokenKind::CloseDelim(_) => raw == seq![41u8],
        TokenKind::Whitespace => raw.len() >= 1 && forall|i: int|
            0 <= i < raw.len() ==> is_ws(#[trigger] raw[i]),
        TokenKind::Comment => raw.len() >= 2 && raw[0] == 47 && (raw[1] == 47 || raw[1] == 42),
        TokenKind::Unknown => raw.len() >= 1,
    }
}

/// Greedy scanning: a token of a run-like kind never stops while the next
/// byte could have continued it.
pub open spec fn token_maximal(src: Seq<u8>, t: Token) -> bool {
    let end = t.span.range.end as int;
    &&& (t.kind is Let || t.kind is Var || t.kind is Boolean || t.kind is Identifier) ==> (end
        == src.len() || !is_ident_continue(src[end]))
    &&& t.kind is Integer ==> (end == src.len() || !(is_radix_digit(src[end], int_radix(t.raw@))
        || src[end] == 95))
    &&& t.kind is Whitespace ==> (end == src.len() || !is_ws(src[end]))
    &&& t.kind is Equals ==> (end == src.len() || src[end] != 61)
    &&& t.kind is Not ==> (end == src.len() || src[end] != 61)
    &&& t.kind is Less ==> (end == src.len() || src[end] != 61)
    &&& t.kind is Greater ==> (end == src.len() || src[end] != 61)
    &&& t.kind is Star ==> (end == src.len() || src[end] != 42)
    &&& t.kind is Slash ==> (end == src.len() || (src[end] != 47 && src[end] != 42))
}

/// Completeness of classification: the byte a token starts at decides what
/// kind the lexer must produce. A whitespace byte starts a whitespace token,
/// an identifier byte a keyword, boolean or identifier, a digit exactly what
/// the reference number scan demands (value included), quotes their literals,
/// each operator byte its one- or two-byte operator, and an error token
/// stands only where a numeric literal is malformed, a character literal is
/// empty, or no token can start at all.
pub open spec fn token_classified(src: Seq<u8>, t: Token) -> bool {
    let i = t.span.range.start as int;
    let b = src[i];
    &&& (is_ws(b) ==> t.kind is Whitespace)
    &&& (is_ident_start(b) ==> (t.kind is Let || t.kind is Var || t.kind is Boolean || t.kind
        is Identifier))
    &&& (is_digit(b) ==> num_outcome_matches(t.kind, sp_number(src, i).0) && t.span.range.end
        as int == sp_number(src, i).1)
    &&& (b == 39 ==> (t.kind is Char || t.kind is UnterminatedChar || t.kind is Unknown))
    &&& (b == 34 ==> (t.kind is String || t.kind is UnterminatedString))
    &&& (b == 47 ==> (t.kind is Comment || t.kind is Slash))
    &&& (b == 61 ==> (t.kind is Equals || t.kind is EqualEqual))
    &&& (b == 33 ==> (t.kind is Not || t.kind is NotEqual))
    &&& (b == 60 ==> (t.kind is Less || t.kind is LessEqual))
    &&& (b == 62 ==> (t.kind is Greater || t.kind is GreaterEqual))
    &&& (b == 42 ==> (t.kind is Star || t.kind is DoubleStar))
    &&& (b == 43 ==> t.kind is Plus)
    &&& (b == 45 ==> t.kind is Minus)
    &&& (b == 37 ==> t.kind is Percent)
    &&& (b == 58 ==> t.kind is Colon)
    &&& (b == 46 ==> t.kind is Dot)
    &&& (b == 40 ==> t.kind is OpenDelim)
    &&& (b == 41 ==> t.kind is CloseDelim)
    &&& (t.kind is Unknown ==> (is_digit(b) || (b == 39 && i + 1 < src.len() && src[i + 1]
        == 39) || !starts_token(b)))
}

/// The code point a character literal starting at `i` carries: its escape's
/// value, or its single content byte.
pub open spec fn char_content(src: Seq<u8>, i: int) -> u32 {
    if src[i + 1] == 92 {
        escape_value(src, i + 1).0
    } else {
        src[i + 1] as u32
    }
}

/// The decoded values that literal tokens carry, read off the input at the
/// token's position.
pub open spec fn token_values_ok(src: Seq<u8>, t: Token) -> bool {
    let start = t.span.range.start as int;
    match t.kind {
        TokenKind::Char(v) => v == char_content(src, start),
        TokenKind::String(points) => string_scan(src, Seq::empty(), start + 1) == (
            true,
            points@,
            t.span.range.end as int,
        ),
        TokenKind::UnterminatedString => !string_scan(src, Seq::empty(), start + 1).0,
        _ => true,
    }
}

pub open spec fn token_ok(src: Seq<u8>, src_id: SourceId, t: Token) -> bool {
    &&& t.span.src == src_id
    &&& t.span.range.start < t.span.range.end <= src.len()
    &&& t.raw@ == src.subrange(t.span.range.start as int, t.span.range.end as int)
    &&& kind_ok(t.kind, t.raw@)
    &&& token_values_ok(src, t)
    &&& token_classified(src, t)
    &&& token_maximal(src, t)
}

/// The tokens cover the whole input, in order and without gaps or overlaps.
pub open spec fn tokens_tile(src: Seq<u8>, tokens: Seq<Token>) -> bool {
    &&& (tokens.len() == 0 <==> src.len() == 0)
    &&& (tokens.len() > 0 ==> tokens[0].span.range.start == 0 && tokens.last().span.range.end
        == src.len())
    &&& forall|i: int|
        0 <= i < tokens.len() - 1 ==> #[trigger] tokens[i].span.range.end == tokens[
            i + 1
        ].span.range.start
}

pub open spec fn lex_output_ok(src: Seq<u8>, src_id: SourceId, tokens: Seq<Token>) -> bool {
    &&& tokens_tile(src, tokens)
    &&& forall|i: int| 0 <= i < tokens.len() ==> token_ok(src, src_id, #[trigger] tokens[i])
}

/// Every diagnostic the lexer emits is one of its two kinds and lies within
/// the input.
pub open spec fn lex_error_ok(src: Seq<u8>, src_id: SourceId, e: SyntaxError) -> bool {
    &&& (e.kind is UnrecognisedCharacter || e.kind is MalformedLiteral)
    &&& e.span.src == src_id
    &&& e.span.range.start <= e.span.range.end <= src.len()
}

// --- Executable helpers -----------------------------------------------------

fn bytes_range(src: &[u8], start: usize, end: usize) -> (r: Vec<u8>)
    requires
        start <= end <= src@.len(),
    ensures
        r@ == src@.subrange(start as int, end as int),
{
    let mut r: Vec<u8> = Vec::new();
    let mut k: usize = start;
    while k < end
        invariant
            start <= k <= end <= src@.len(),
            r@ == src@.subrange(start as int, k as int),
        decreases end - k,
    {
        r.push(src[k]);
        proof {
            assert(src@.subrange(start as int, k + 1 as int) == src@.subrange(
                start as int,
                k as int,
            ).push(src@[k as int]));
        }
        k = k + 1;
    }
    r
}

fn make_token(kind: TokenKind, src: &[u8], src_id: SourceId, start: usize, end: usize) -> (t:
    Token)
    requires
        start < end <= src@.len(),
    ensures
        t.kind == kind,
        t.span.src == src_id,
        t.span.range.start == start,
        t.span.range.end == end,
        t.raw@ == src@.subrange(start as int, end as int),
{
    let raw = bytes_range(src, start, end);
    Token { kind, span: SourceSpan::new(src_id, CheapRange::new(start, end)), raw }
}

fn is_ws_at(src: &[u8], k: usize) -> (r: bool)
    requires
        k < src@.len(),
    ensures
        r == is_ws(src@[k as int]),
{
    let b = src[k];
    b == 32 || b == 9 || b == 13 || b == 10
}

fn is_digit_at(src: &[u8], k: usize) -> (r: bool)
    requires
        k < src@.len(),
    ensures
        r == is_digit(src@[k as int]),
{
    let b = src[k];
    48 <= b && b <= 57
}

fn is_ident_start_at(src: &[u8], k: usize) -> (r: bool)
    requires
        k < src@.len(),
    ensures
        r == is_ident_start(src@[k as int]),
{
    let b = src[k];
    (97 <= b && b <= 122) || (65 <= b && b <= 90) || b == 95
}

fn is_ident_continue_at(src: &[u8], k: usize) -> (r: bool)
    requires
        k < src@.len(),
    ensures
        r == is_ident_continue(src@[k as int]),
{
    is_ident_start_at(src, k) || is_digit_at(src, k)
}

// --- Identifier and keyword scanning ----------------------------------------

/// The token kind of an identifier run: a keyword, a boolean literal, or an
/// identifier carrying its text.
fn keyword_or_ident(raw: Vec<u8>) -> (k: TokenKind)
    requires
        ident_shape(raw@),
    ensures
        kind_ok(k, raw@),
        k is Let || k is Var || k is Boolean || k is Identifier,
{
    let is_let = raw.len() == 3 && raw[0] == 108 && raw[1] == 101 && raw[2] == 116;
    let is_var = raw.len() == 3 && raw[0] == 118 && raw[1] == 97 && raw[2] == 114;
    let is_true = raw.len() == 4 && raw[0] == 116 && raw[1] == 114 && raw[2] == 117 && raw[3]
        == 101;
    let is_false = raw.len() == 5 && raw[0] == 102 && raw[1] == 97 && raw[2] == 108 && raw[3]
        == 115 && raw[4] == 101;
    proof {
        assert(is_let == (raw@ == kw_let())) by {
            if raw@.len() == 3 && raw@[0] == 108 && raw@[1] == 101 && raw@[2] == 116 {
                assert(raw@ =~= kw_let());
            }
        }
        assert(is_var == (raw@ == kw_var())) by {
            if raw@.len() == 3 && raw@[0] == 118 && raw@[1] == 97 && raw@[2] == 114 {
                assert(raw@ =~= kw_var());
            }
        }
        assert(is_true == (raw@ == kw_true())) by {
            if raw@.len() == 4 && raw@[0] == 116 && raw@[1] == 114 && raw@[2] == 117 && raw@[3]
                == 101 {
                assert(raw@ =~= kw_true());
            }
        }
        assert(is_false == (raw@ == kw_false())) by {
            if raw@.len() == 5 && raw@[0] == 102 && raw@[1] == 97 && raw@[2] == 108 && raw@[3]
                == 115 && raw@[4] == 101 {
                assert(raw@ =~= kw_false());
            }
        }
    }
    if is_let {
        TokenKind::Let
    } else if is_var {
        TokenKind::Var
    } else if is_true {
        TokenKind::Boolean(true)
    } else if is_false {
        TokenKind::Boolean(false)
    } else {
        TokenKind::Identifier(raw)
    }
}

// --- Number scanning --------------------------------------------------------

/// The largest value an integer literal may take.
pub open spec fn int_literal_max() -> int {
    0x7fffffffffffffffffffffffffffffff
}

fn is_radix_digit_at(src: &[u8], k: usize, radix: u8) -> (r: bool)
    requires
        k < src@.len(),
        radix == 2 || radix == 8 || radix == 10 || radix == 16,
    ensures
        r == is_radix_digit(src@[k as int], radix),
{
    let b = src[k];
    if radix == 16 {
        (48 <= b && b <= 57) || (97 <= b && b <= 102) || (65 <= b && b <= 70)
    } else {
        48 <= b && b < 48 + radix
    }
}

fn digit_val_at(src: &[u8], k: usize) -> (r: u8)
    requires
        k < src@.len(),
        is_radix_digit(src@[k as int], 16),
    ensures
        r as int == digit_val(src@[k as int]),
        r <= 15,
{
    let b = src[k];
    if b >= 97 {
        b - 87
    } else if b >= 65 {
        b - 55
    } else {
        b - 48
    }
}

proof fn lemma_digits_value_nonneg(s: Seq<u8>, radix: u8)
    requires
        radix == 2 || radix == 8 || radix == 10 || radix == 16,
        forall|i: int| 0 <= i < s.len() ==> is_radix_digit(#[trigger] s[i], radix) || s[i] == 95,
    ensures
        digits_value(s, radix as int) >= 0,
    decreases s.len(),
{
    if s.len() > 0 {
        lemma_digits_value_nonneg(s.drop_last(), radix);
        if s.last() != 95 {
            assert(digit_val(s.last()) >= 0);
            assert(digits_value(s.drop_last(), radix as int) * (radix as int) >= 0) by (
            nonlinear_arith)
                requires
                    digits_value(s.drop_last(), radix as int) >= 0,
                    radix >= 2,
            ;
        }
    }
}

/// A run that is all digits or separators up to `j`, and stops there, ends
/// exactly where the reference run ends.
proof fn lemma_digits_end_from(src: Seq<u8>, start: int, j: int, radix: u8)
    requires
        0 <= start <= j <= src.len(),
        forall|k: int| start <= k < j ==> is_radix_digit(#[trigger] src[k], radix) || src[k] == 95,
        j == src.len() || !(is_radix_digit(src[j], radix) || src[j] == 95),
    ensures
        digits_end(src, start, radix) == j,
    decreases j - start,
{
    if start < j {
        lemma_digits_end_from(src, start + 1, j, radix);
    }
}

struct DigitsScan {
    end: usize,
    value: u128,
    seen_digit: bool,
    overflow: bool,
}

/// Scans a maximal run of digits of `radix` and `_` separators starting at
/// `start`, accumulating the numeric value.
#[verifier::rlimit(50)]
fn scan_digits(src: &[u8], start: usize, radix: u8) -> (r: DigitsScan)
    requires
        start <= src@.len(),
        radix == 2 || radix == 8 || radix == 10 || radix == 16,
    ensures
        start <= r.end <= src@.len(),
        r.end as int == digits_end(src@, start as int, radix),
        forall|k: int|
            start <= k < r.end ==> is_radix_digit(#[trigger] src@[k], radix) || src@[k] == 95,
        r.end == src@.len() || !(is_radix_digit(src@[r.end as int], radix) || src@[r.end as int]
            == 95),
        r.seen_digit == exists|k: int|
            start <= k < r.end && is_radix_digit(#[trigger] src@[k], radix),
        !r.overflow ==> r.value as int == digits_value(
            src@.subrange(start as int, r.end as int),
            radix as int,
        ) && r.value as int <= int_literal_max(),
        r.overflow ==> digits_value(src@.subrange(start as int, r.end as int), radix as int)
            > int_literal_max(),
    decreases src@.len() - start,
{
    let n = src.len();
    let mut j: usize = start;
    let mut value: u128 = 0;
    let mut seen_digit = false;
    let mut overflow = false;
    let max: u128 = 0x7fffffffffffffffffffffffffffffff;
    loop
        invariant
            start <= j <= n == src@.len(),
            radix == 2 || radix == 8 || radix == 10 || radix == 16,
            max == int_literal_max(),
            forall|k: int|
                start <= k < j ==> is_radix_digit(#[trigger] src@[k], radix) || src@[k] == 95,
            seen_digit == exists|k: int|
                start <= k < j && is_radix_digit(#[trigger] src@[k], radix),
            !overflow ==> value as int == digits_value(
                src@.subrange(start as int, j as int),
                radix as int,
            ) && value <= max,
            overflow ==> digits_value(src@.subrange(start as int, j as int), radix as int)
                > int_literal_max(),
        ensures
            start <= j <= n,
            j == n || !(is_radix_digit(src@[j as int], radix) || src@[j as int] == 95),
            forall|k: int|
                start <= k < j ==> is_radix_digit(#[trigger] src@[k], radix) || src@[k] == 95,
            seen_digit == exists|k: int|
                start <= k < j && is_radix_digit(#[trigger] src@[k], radix),
            !overflow ==> value as int == digits_value(
                src@.subrange(start as int, j as int),
                radix as int,
            ) && value <= max,
            overflow ==> digits_value(src@.subrange(start as int, j as int), radix as int)
                > int_literal_max(),
        decreases n - j,
    {
        if j >= n {
            break ;
        }
        let is_digit_here = is_radix_digit_at(src, j, radix);
        if !(is_digit_here || src[j] == 95) {
            break ;
        }
        proof {
            assert(src@.subrange(start as int, j + 1).drop_last() =~= src@.subrange(
                start as int,
                j as int,
            ));
            assert(src@.subrange(start as int, j + 1).last() == src@[j as int]);
        }
        if is_digit_here {
            let d = digit_val_at(src, j);
            let ghost prev = digits_value(src@.subrange(start as int, j as int), radix as int);
            if !overflow {
                let limit = (max - d as u128) / (radix as u128);
                if value <= limit {
                    proof {
                        assert((value as int) * (radix as int) + (d as int) <= max as int) by (
                        nonlinear_arith)
                            requires
                                value as int <= ((max as int) - (d as int)) / (radix as int),
                                value >= 0,
                                radix >= 2,
                                0 <= (d as int) <= 15,
                                (d as int) <= max as int,
                        ;
                    }
                    value = value * (radix as u128) + (d as u128);
                } else {
                    proof {
                        lemma_digits_value_nonneg(
                            src@.subrange(start as int, j as int),
                            radix,
                        );
                        assert(prev * (radix as int) + digit_val(src@[j as int])
                            > int_literal_max()) by (nonlinear_arith)
                            requires
                                prev > ((max as int) - digit_val(src@[j as int])) / (radix as int),
                                prev >= 0,
                                radix >= 2,
                                0 <= digit_val(src@[j as int]) <= 15,
                                max as int == int_literal_max(),
                        ;
                    }
                    overflow = true;
                }
            } else {
                proof {
                    lemma_digits_value_nonneg(src@.subrange(start as int, j as int), radix);
                    assert(prev * (radix as int) + digit_val(src@[j as int]) > int_literal_max())
                        by (nonlinear_arith)
                        requires
                            prev > int_literal_max(),
                            prev >= 0,
                            radix >= 2,
                            0 <= digit_val(src@[j as int]),
                            int_literal_max() == 0x7fffffffffffffffffffffffffffffff,
                    ;
                }
            }
            seen_digit = true;
        }
        j = j + 1;
    }
    proof {
        lemma_digits_end_from(src@, start as int, j as int, radix);
    }
    DigitsScan { end: j, value, seen_digit, overflow }
}

struct NumScan {
    kind: TokenKind,
    end: usize,
    malformed: bool,
}

/// Scans a numeric literal: an integer of radix 2, 8, 10 or 16, or a decimal
/// float. A radix prefix without a digit after it, and an integer value out
/// of range, give an error token instead.
#[verifier::rlimit(50)]
fn scan_number(src: &[u8], i: usize) -> (r: NumScan)
    requires
        i < src@.len(),
        is_digit(src@[i as int]),
    ensures
        i < r.end <= src@.len(),
        kind_ok(r.kind, src@.subrange(i as int, r.end as int)),
        r.kind is Integer ==> r.end == src@.len() || !(is_radix_digit(
            src@[r.end as int],
            int_radix(src@.subrange(i as int, r.end as int)),
        ) || src@[r.end as int] == 95),
        r.kind is Integer || r.kind is Float || r.kind is Unknown,
        r.malformed == (r.kind is Unknown),
        num_outcome_matches(r.kind, sp_number(src@, i as int).0),
        r.end as int == sp_number(src@, i as int).1,
{
    let n = src.len();
    if src[i] == 48 && i + 1 < n && (src[i + 1] == 98 || src[i + 1] == 111 || src[i + 1] == 120) {
        let radix: u8 = if src[i + 1] == 98 {
            2
        } else if src[i + 1] == 111 {
            8
        } else {
            16
        };
        let scan = scan_digits(src, i + 2, radix);
        let ghost raw = src@.subrange(i as int, scan.end as int);
        proof {
            assert(raw.len() >= 2);
            assert(raw[0] == src@[i as int]);
            assert(raw[1] == src@[i + 1]);
            assert(has_radix_prefix(raw));
            assert(radix_of(raw[1]) == radix);
            assert(raw.skip(2) =~= src@.subrange(i + 2, scan.end as int));
        }
        if scan.seen_digit && !scan.overflow {
            proof {
                let k = choose|k: int|
                    i + 2 <= k < scan.end && is_radix_digit(#[trigger] src@[k], radix);
                assert(raw.skip(2)[k - (i + 2)] == src@[k]);
                assert(digits_shape(raw.skip(2), radix));
            }
            NumScan {
                kind: TokenKind::Integer(scan.value as i128),
                end: scan.end,
                malformed: false,
            }
        } else {
            NumScan { kind: TokenKind::Unknown, end: scan.end, malformed: true }
        }
    } else {
        let scan = scan_digits(src, i, 10);
        proof {
            assert(is_radix_digit(src@[i as int], 10));
            assert(scan.end > i);
            assert(scan.seen_digit);
        }
        let j = scan.end;
        let mut is_float = false;
        if j < n {
            if src[j] == 46 && j + 1 < n {
                is_float = is_digit_at(src, j + 1);
            }
        }
        if is_float {
            let frac = scan_digits(src, j + 1, 10);
            proof {
                assert(is_radix_digit(src@[j + 1], 10));
                assert(frac.end > j + 1);
            }
            let text = bytes_range(src, i, frac.end);
            proof {
                let raw = src@.subrange(i as int, frac.end as int);
                let k = j - i;
                assert(raw[k] == src@[j as int]);
                assert(raw[k + 1] == src@[j + 1]);
                assert(raw.take(k) =~= src@.subrange(i as int, j as int));
                assert(raw.skip(k + 1) =~= src@.subrange(j + 1, frac.end as int));
                assert(raw.take(k)[0] == src@[i as int]);
                assert(digits_shape(raw.take(k), 10));
                assert(raw.skip(k + 1)[0] == src@[j + 1]);
                assert(digits_shape(raw.skip(k + 1), 10));
                assert(0 < k < raw.len() && raw[k] == 46 && is_digit(raw[0]) && k + 1 < raw.len()
                    && is_digit(raw[k + 1]));
            }
            NumScan { kind: TokenKind::Float(text), end: frac.end, malformed: false }
        } else if scan.overflow {
            NumScan { kind: TokenKind::Unknown, end: j, malformed: true }
        } else {
            let ghost raw = src@.subrange(i as int, j as int);
            proof {
                assert(raw[0] == src@[i as int]);
                assert(!has_radix_prefix(raw));
                assert(digits_shape(raw, 10));
            }
            NumScan { kind: TokenKind::Integer(scan.value as i128), end: j, malformed: false }
        }
    }
}

// --- Character and string scanning ------------------------------------------

/// The decoded code point and end position of the escape sequence whose
/// backslash stands at `k`: `\xNN` and `\uNNNN` give their hex value, the
/// named escapes their character, anything else its own byte, flagged bad by
/// the scanner.
pub open spec fn escape_value(src: Seq<u8>, k: int) -> (u32, int) {
    let n = src.len() as int;
    if k + 1 >= n {
        (0u32, n)
    } else {
        let c = src[k + 1];
        if c == 120 {
            if n - k > 3 && is_radix_digit(src[k + 2], 16) && is_radix_digit(src[k + 3], 16) {
                ((digit_val(src[k + 2]) * 16 + digit_val(src[k + 3])) as u32, k + 4)
            } else {
                (0u32, k + 2)
            }
        } else if c == 117 {
            if n - k > 5 && is_radix_digit(src[k + 2], 16) && is_radix_digit(src[k + 3], 16)
                && is_radix_digit(src[k + 4], 16) && is_radix_digit(src[k + 5], 16) {
                (
                    ((digit_val(src[k + 2]) * 16 + digit_val(src[k + 3])) * 256 + digit_val(
                        src[k + 4],
                    ) * 16 + digit_val(src[k + 5])) as u32,
                    k + 6,
                )
            } else {
                (0u32, k + 2)
            }
        } else if c == 110 {
            (10u32, k + 2)
        } else if c == 114 {
            (13u32, k + 2)
        } else if c == 116 {
            (9u32, k + 2)
        } else if c == 48 {
            (0u32, k + 2)
        } else {
            (c as u32, k + 2)
        }
    }
}

/// The code points of a string literal read from `j` (just past the opening
/// quote) with `acc` already decoded: whether the closing quote came, the
/// decoded value, and the end position.
pub open spec fn string_scan(src: Seq<u8>, acc: Seq<u32>, j: int) -> (bool, Seq<u32>, int)
    decreases src.len() - j,
{
    if j < 0 || j >= src.len() {
        (false, acc, src.len() as int)
    } else {
        let b = src[j];
        if b == 34 {
            (true, acc, j + 1)
        } else if b == 92 {
            let (v, e) = escape_value(src, j);
            if j < e <= src.len() {
                string_scan(src, acc.push(v), e)
            } else {
                (false, acc, src.len() as int)
            }
        } else {
            string_scan(src, acc.push(b as u32), j + 1)
        }
    }
}

struct EscapeScan {
    value: u32,
    end: usize,
    bad: bool,
}

/// Scans one escape sequence starting at the backslash at `k`: `\xNN` (two
/// hex digits), `\uNNNN` (four hex digits), or one of `\n \r \t \0 \\ \' \"`.
/// Anything else is flagged bad and its byte taken literally.
fn scan_escape(src: &[u8], k: usize) -> (r: EscapeScan)
    requires
        k < src@.len(),
        src@[k as int] == 92,
    ensures
        k < r.end <= src@.len(),
        r.end <= k + 6,
        (r.value, r.end as int) == escape_value(src@, k as int),
{
    let n = src.len();
    if k + 1 >= n {
        return EscapeScan { value: 0, end: n, bad: true };
    }
    let c = src[k + 1];
    if c == 120 {
        // \xNN
        if n - k > 3 && is_radix_digit_at(src, k + 2, 16) && is_radix_digit_at(src, k + 3, 16) {
            let hi = digit_val_at(src, k + 2);
            let lo = digit_val_at(src, k + 3);
            EscapeScan { value: (hi as u32) * 16 + (lo as u32), end: k + 4, bad: false }
        } else {
            EscapeScan { value: 0, end: k + 2, bad: true }
        }
    } else if c == 117 {
        // \uNNNN
        if n - k > 5 && is_radix_digit_at(src, k + 2, 16) && is_radix_digit_at(src, k + 3, 16)
            && is_radix_digit_at(src, k + 4, 16) && is_radix_digit_at(src, k + 5, 16) {
            let d1 = digit_val_at(src, k + 2);
            let d2 = digit_val_at(src, k + 3);
            let d3 = digit_val_at(src, k + 4);
            let d4 = digit_val_at(src, k + 5);
            let value = ((d1 as u32) * 16 + (d2 as u32)) * 256 + (d3 as u32) * 16 + (d4 as u32);
            EscapeScan { value, end: k + 6, bad: false }
        } else {
            EscapeScan { value: 0, end: k + 2, bad: true }
        }
    } else if c == 110 {
        EscapeScan { value: 10, end: k + 2, bad: false }
    } else if c == 114 {
        EscapeScan { value: 13, end: k + 2, bad: false }
    } else if c == 116 {
        EscapeScan { value: 9, end: k + 2, bad: false }
    } else if c == 48 {
        EscapeScan { value: 0, end: k + 2, bad: false }
    } else if c == 92 || c == 39 || c == 34 {
        EscapeScan { value: c as u32, end: k + 2, bad: false }
    } else {
        EscapeScan { value: c as u32, end: k + 2, bad: true }
    }
}

struct LitScan {
    kind: TokenKind,
    end: usize,
    malformed: bool,
}

/// Scans a character literal. An empty or unclosed literal is malformed; the
/// unclosed case keeps a distinct token kind so the parser can recover.
fn scan_char(src: &[u8], i: usize) -> (r: LitScan)
    requires
        i < src@.len(),
        src@[i as int] == 39,
    ensures
        i < r.end <= src@.len(),
        kind_ok(r.kind, src@.subrange(i as int, r.end as int)),
        r.kind is Char || r.kind is UnterminatedChar || r.kind is Unknown,
        !(r.kind is Char) ==> r.malformed,
        r.kind is Unknown ==> i + 1 < src@.len() && src@[i + 1] == 39,
        r.kind matches TokenKind::Char(v) ==> v == char_content(src@, i as int),
{
    let n = src.len();
    if i + 1 >= n {
        return LitScan { kind: TokenKind::UnterminatedChar, end: n, malformed: true };
    }
    let b = src[i + 1];
    if b == 10 {
        return LitScan { kind: TokenKind::UnterminatedChar, end: i + 1, malformed: true };
    }
    if b == 39 {
        return LitScan { kind: TokenKind::Unknown, end: i + 2, malformed: true };
    }
    let (value, next, bad) = if b == 92 {
        let esc = scan_escape(src, i + 1);
        (esc.value, esc.end, esc.bad)
    } else {
        (b as u32, i + 2, false)
    };
    if next < n && src[next] == 39 {
        proof {
            assert(src@.subrange(i as int, next + 1).last() == src@[next as int]);
        }
        LitScan { kind: TokenKind::Char(value), end: next + 1, malformed: bad }
    } else {
        LitScan { kind: TokenKind::UnterminatedChar, end: next, malformed: true }
    }
}

/// Scans a string literal, decoding escapes into code points. A string whose
/// closing quote never comes runs to the end of the input and keeps a
/// distinct token kind.
#[verifier::rlimit(50)]
fn scan_string(src: &[u8], i: usize) -> (r: LitScan)
    requires
        i < src@.len(),
        src@[i as int] == 34,
    ensures
        i < r.end <= src@.len(),
        kind_ok(r.kind, src@.subrange(i as int, r.end as int)),
        r.kind is String || r.kind is UnterminatedString,
        r.kind is UnterminatedString ==> r.malformed,
        r.kind matches TokenKind::String(points) ==> string_scan(src@, Seq::empty(), i + 1) == (
            true,
            points@,
            r.end as int,
        ),
        r.kind is UnterminatedString ==> !string_scan(src@, Seq::empty(), i + 1).0,
{
    let n = src.len();
    let mut j: usize = i + 1;
    let mut value: Vec<u32> = Vec::new();
    let mut bad = false;
    loop
        invariant
            i < j <= n == src@.len(),
            src@[i as int] == 34,
            string_scan(src@, Seq::empty(), i + 1) == string_scan(src@, value@, j as int),
        ensures
            i < j <= n,
            j == n,
            string_scan(src@, Seq::empty(), i + 1) == string_scan(src@, value@, j as int),
        decreases n - j,
    {
        if j >= n {
            break ;
        }
        let b = src[j];
        if b == 34 {
            proof {
                assert(src@.subrange(i as int, j + 1).last() == src@[j as int]);
                assert(string_scan(src@, value@, j as int) == (true, value@, j + 1 as int));
            }
            return LitScan { kind: TokenKind::String(value), end: j + 1, malformed: bad };
        }
        if b == 92 {
            let esc = scan_escape(src, j);
            let ghost before = value@;
            value.push(esc.value);
            if esc.bad {
                bad = true;
            }
            proof {
                assert(string_scan(src@, before, j as int) == string_scan(
                    src@,
                    before.push(esc.value),
                    esc.end as int,
                ));
            }
            j = esc.end;
        } else {
            let ghost before = value@;
            value.push(b as u32);
            proof {
                assert(string_scan(src@, before, j as int) == string_scan(
                    src@,
                    before.push(b as u32),
                    j + 1 as int,
                ));
            }
            j = j + 1;
        }
    }
    proof {
        assert(string_scan(src@, value@, j as int).0 == false);
    }
    LitScan { kind: TokenKind::UnterminatedString, end: n, malformed: true }
}

// --- One token --------------------------------------------------------------

/// Scans the single token starting at `i`, emitting a diagnostic when the
/// scanned text is malformed or unrecognised.
#[verifier::rlimit(50)]
fn scan_token(src: &[u8], src_id: SourceId, i: usize, errors: &mut Vec<SyntaxError>) -> (t: Token)
    requires
        i < src@.len(),
    ensures
        t.span.src == src_id,
        t.span.range.start == i,
        i < t.span.range.end <= src@.len(),
        t.raw@ == src@.subrange(i as int, t.span.range.end as int),
        kind_ok(t.kind, t.raw@),
        token_values_ok(src@, t),
        token_classified(src@, t),
        token_maximal(src@, t),
        final(errors)@.len() >= old(errors)@.len(),
        forall|k: int| 0 <= k < old(errors)@.len() ==> #[trigger] final(errors)@[k] == old(
            errors,
        )@[k],
        forall|k: int|
            old(errors)@.len() <= k < final(errors)@.len() ==> lex_error_ok(
                src@,
                src_id,
                #[trigger] final(errors)@[k],
            ),
{
    let n = src.len();
    let b = src[i];
    if is_ws_at(src, i) {
        let mut j: usize = i + 1;
        loop
            invariant
                i < j <= n == src@.len(),
                forall|k: int| i <= k < j ==> is_ws(#[trigger] src@[k]),
            ensures
                i < j <= n,
                forall|k: int| i <= k < j ==> is_ws(#[trigger] src@[k]),
                j == n || !is_ws(src@[j as int]),
            decreases n - j,
        {
            if j >= n {
                break ;
            }
            if !is_ws_at(src, j) {
                break ;
            }
            j = j + 1;
        }
        let t = make_token(TokenKind::Whitespace, src, src_id, i, j);
        proof {
            assert(token_maximal(src@, t));
        }
        t
    } else if is_ident_start_at(src, i) {
        let mut j: usize = i + 1;
        loop
            invariant
                i < j <= n == src@.len(),
                forall|k: int| i <= k < j ==> is_ident_continue(#[trigger] src@[k]),
            ensures
                i < j <= n,
                forall|k: int| i <= k < j ==> is_ident_continue(#[trigger] src@[k]),
                j == n || !is_ident_continue(src@[j as int]),
            decreases n - j,
        {
            if j >= n {
                break ;
            }
            if !is_ident_continue_at(src, j) {
                break ;
            }
            j = j + 1;
        }
        let raw = bytes_range(src, i, j);
        let kind = keyword_or_ident(raw);
        let t = make_token(kind, src, src_id, i, j);
        proof {
            assert(token_maximal(src@, t));
        }
        t
    } else if is_digit_at(src, i) {
        let scan = scan_number(src, i);
        if scan.malformed {
            errors.push(
                SyntaxError::new(
                    SyntaxErrorKind::MalformedLiteral,
                    SourceSpan::new(src_id, CheapRange::new(i, scan.end)),
                ),
            );
        }
        let t = make_token(scan.kind, src, src_id, i, scan.end);
        proof {
            assert(token_maximal(src@, t));
        }
        t
    } else if b == 39 {
        let scan = scan_char(src, i);
        if scan.malformed {
            errors.push(
                SyntaxError::new(
                    SyntaxErrorKind::MalformedLiteral,
                    SourceSpan::new(src_id, CheapRange::new(i, scan.end)),
                ),
            );
        }
        let t = make_token(scan.kind, src, src_id, i, scan.end);
        proof {
            assert(token_values_ok(src@, t));
        }
        t
    } else if b == 34 {
        let scan = scan_string(src, i);
        if scan.malformed {
            errors.push(
                SyntaxError::new(
                    SyntaxErrorKind::MalformedLiteral,
                    SourceSpan::new(src_id, CheapRange::new(i, scan.end)),
                ),
            );
        }
        let t = make_token(scan.kind, src, src_id, i, scan.end);
        proof {
            assert(token_values_ok(src@, t));
        }
        t
    } else if b == 47 {
        if i + 1 < n && src[i + 1] == 47 {
            // line comment, up to but not including the newline
            let mut j: usize = i + 2;
            while j < n && src[j] != 10
                invariant
                    i + 2 <= j <= n == src@.len(),
                decreases n - j,
            {
                j = j + 1;
            }
            make_token(TokenKind::Comment, src, src_id, i, j)
        } else if i + 1 < n && src[i + 1] == 42 {
            // block comment, through the closing star-slash or to the end
            let mut j: usize = i + 2;
            let mut end: usize = n;
            let mut found = false;
            loop
                invariant
                    i + 2 <= j <= n == src@.len(),
                    found ==> i + 2 <= end <= n,
                    !found ==> end == n,
                ensures
                    i + 2 <= end <= n,
                decreases n - j,
            {
                if j >= n {
                    break ;
                }
                if src[j] == 42 && j + 1 < n && src[j + 1] == 47 {
                    end = j + 2;
                    found = true;
                    break ;
                }
                j = j + 1;
            }
            make_token(TokenKind::Comment, src, src_id, i, end)
        } else {
            proof {
                assert(src@.subrange(i as int, i + 1) =~= seq![src@[i as int]]);
            }
            make_token(TokenKind::Slash, src, src_id, i, i + 1)
        }
    } else {
        // operators, delimiters, and anything unrecognised
        let two = if i + 1 < n {
            if b == 61 && src[i + 1] == 61 {
                Some(TokenKind::EqualEqual)
            } else if b == 33 && src[i + 1] == 61 {
                Some(TokenKind::NotEqual)
            } else if b == 60 && src[i + 1] == 61 {
                Some(TokenKind::LessEqual)
            } else if b == 62 && src[i + 1] == 61 {
                Some(TokenKind::GreaterEqual)
            } else if b == 42 && src[i + 1] == 42 {
                Some(TokenKind::DoubleStar)
            } else {
                None
            }
        } else {
            None
        };
        match two {
            Some(kind) => {
                proof {
                    assert(src@.subrange(i as int, i + 2) =~= seq![
                        src@[i as int],
                        src@[i + 1],
                    ]);
                }
                make_token(kind, src, src_id, i, i + 2)
            },
            None => {
                let one = if b == 61 {
                    Some(TokenKind::Equals)
                } else if b == 58 {
                    Some(TokenKind::Colon)
                } else if b == 43 {
                    Some(TokenKind::Plus)
                } else if b == 45 {
                    Some(TokenKind::Minus)
                } else if b == 42 {
                    Some(TokenKind::Star)
                } else if b == 37 {
                    Some(TokenKind::Percent)
                } else if b == 33 {
                    Some(TokenKind::Not)
                } else if b == 60 {
                    Some(TokenKind::Less)
                } else if b == 62 {
                    Some(TokenKind::Greater)
                } else if b == 46 {
                    Some(TokenKind::Dot)
                } else if b == 40 {
                    Some(TokenKind::OpenDelim(Delimiter::Parentheses))
                } else if b == 41 {
                    Some(TokenKind::CloseDelim(Delimiter::Parentheses))
                } else {
                    None
                };
                proof {
                    assert(src@.subrange(i as int, i + 1) =~= seq![src@[i as int]]);
                }
                match one {
                    Some(kind) => make_token(kind, src, src_id, i, i + 1),
                    None => {
                        errors.push(
                            SyntaxError::new(
                                SyntaxErrorKind::UnrecognisedCharacter,
                                SourceSpan::new(src_id, CheapRange::new(i, i + 1)),
                            ),
                        );
                        make_token(TokenKind::Unknown, src, src_id, i, i + 1)
                    },
                }
            },
        }
    }
}

// --- The whole input --------------------------------------------------------

/// Lexes the whole input into the full token stream, trivia included.
///
/// This never fails: every byte sequence produces a token stream whose spans
/// tile the input exactly, with unrecognised spans captured as error tokens.
#[verifier::rlimit(50)]
pub fn lex_raw(src: &[u8], src_id: SourceId) -> (r: (Vec<Token>, Vec<SyntaxError>))
    ensures
        lex_output_ok(src@, src_id, r.0@),
        forall|k: int| 0 <= k < r.1@.len() ==> lex_error_ok(src@, src_id, #[trigger] r.1@[k]),
{
    let n = src.len();
    let mut tokens: Vec<Token> = Vec::new();
    let mut errors: Vec<SyntaxError> = Vec::new();
    let mut i: usize = 0;
    while i < n
        invariant
            i <= n == src@.len(),
            tokens@.len() == 0 <==> i == 0,
            tokens@.len() > 0 ==> tokens@[0].span.range.start == 0
                && tokens@.last().span.range.end == i,
            forall|k: int|
                0 <= k < tokens@.len() - 1 ==> #[trigger] tokens@[k].span.range.end == tokens@[
                    k + 1
                ].span.range.start,
            forall|k: int| 0 <= k < tokens@.len() ==> token_ok(src@, src_id, #[trigger] tokens@[k]),
            forall|k: int|
                0 <= k < errors@.len() ==> lex_error_ok(src@, src_id, #[trigger] errors@[k]),
        decreases n - i,
    {
        let t = scan_token(src, src_id, i, &mut errors);
        let end = t.span.range.end();
        tokens.push(t);
        i = end;
    }
    (tokens, errors)
}

/// The token stream with whitespace and comments removed: drops every trivia
/// token of a full stream, keeping the rest in order.
pub open spec fn non_trivia(tokens: Seq<Token>) -> Seq<Token>
    decreases tokens.len(),
{
    if tokens.len() == 0 {
        Seq::empty()
    } else {
        let rest = non_trivia(tokens.drop_last());
        if tokens.last().kind.spec_is_trivia() {
            rest
        } else {
            rest.push(tokens.last())
        }
    }
}

/// Converts raw text into the token sequence the parser reads: the full
/// stream of `lex_raw` with whitespace and comment tokens discarded.
pub fn lex(src: &[u8], src_id: SourceId) -> (r: (Vec<Token>, Vec<SyntaxError>))
    ensures
        exists|all: Seq<Token>|
            lex_output_ok(src@, src_id, all) && r.0@ == #[trigger] non_trivia(all),
        forall|k: int| 0 <= k < r.1@.len() ==> lex_error_ok(src@, src_id, #[trigger] r.1@[k]),
{
    let (all, errors) = lex_raw(src, src_id);
    let ghost all0 = all@;
    let mut rest = all;
    let mut out: Vec<Token> = Vec::new();
    let ghost mut k: int = 0;
    while rest.len() > 0
        invariant
            0 <= k <= all0.len(),
            rest@ == all0.skip(k),
            out@ == non_trivia(all0.take(k)),
        decreases rest@.len(),
    {
        let t = rest.remove(0);
        proof {
            assert(t == all0[k]);
            assert(rest@ =~= all0.skip(k + 1));
            assert(all0.take(k + 1).drop_last() =~= all0.take(k));
            assert(all0.take(k + 1).last() == all0[k]);
        }
        if !t.kind.is_trivia() {
            out.push(t);
        }
        proof {
            k = k + 1;
        }
    }
    proof {
        assert(all0.take(k) =~= all0);
        assert(lex_output_ok(src@, src_id, all0) && out@ == non_trivia(all0));
    }
    (out, errors)
}

// --- Reconstruction ---------------------------------------------------------

/// The concatenated raw text of a token sequence.
pub open spec fn concat_raws(tokens: Seq<Token>) -> Seq<u8>
    decreases tokens.len(),
{
    if tokens.len() == 0 {
        Seq::empty()
    } else {
        concat_raws(tokens.drop_last()) + tokens.last().raw@
    }
}

#[verifier::rlimit(50)]
proof fn lemma_concat_raws_prefix(src: Seq<u8>, src_id: SourceId, tokens: Seq<Token>)
    requires
        forall|i: int| 0 <= i < tokens.len() ==> token_ok(src, src_id, #[trigger] tokens[i]),
        forall|i: int|
            0 <= i < tokens.len() - 1 ==> #[trigger] tokens[i].span.range.end == tokens[
                i + 1
            ].span.range.start,
        tokens.len() > 0 ==> tokens[0].span.range.start == 0,
    ensures
        tokens.len() > 0 ==> concat_raws(tokens) == src.take(
            tokens.last().span.range.end as int,
        ),
        tokens.len() == 0 ==> concat_raws(tokens) == Seq::<u8>::empty(),
    decreases tokens.len(),
{
    if tokens.len() > 0 {
        let prefix = tokens.drop_last();
        lemma_concat_raws_prefix(src, src_id, prefix);
        let t = tokens.last();
        if tokens.len() == 1 {
            assert(concat_raws(tokens) =~= t.raw@);
            assert(t.raw@ =~= src.take(t.span.range.end as int));
        } else {
            let p = prefix.last();
            assert(p == tokens[tokens.len() - 2]);
            assert(p.span.range.end == t.span.range.start);
            assert(concat_raws(tokens) =~= src.take(p.span.range.end as int) + t.raw@);
            assert(src.take(p.span.range.end as int) + t.raw@ =~= src.take(
                t.span.range.end as int,
            ));
        }
    }
}

/// Lexer totality, made concrete: the spans of a full token stream tile the
/// input, so the concatenation of the tokens' underlying text reconstructs
/// the original input exactly.
pub proof fn lemma_lex_reconstructs_input(src: Seq<u8>, src_id: SourceId, tokens: Seq<Token>)
    requires
        lex_output_ok(src, src_id, tokens),
    ensures
        concat_raws(tokens) == src,
{
    lemma_concat_raws_prefix(src, src_id, tokens);
    if tokens.len() > 0 {
        assert(src.take(tokens.last().span.range.end as int) =~= src);
    } else {
        assert(concat_raws(tokens) =~= src);
    }
}

} // verus!
