//! The parser: consumes the token sequence by index, builds the syntax tree
//! using precedence climbing, and collects diagnostics in a side list.
//!
//! Parsing is total: malformed input yields `Error` items and diagnostics,
//! never a failure. The grammar, low to high precedence:
//!
//! ```text
//! item    := stmt | sum
//! stmt    := "let" IDENT (":" type)? ("=" sum)?   (an immutable binding
//!            without an initializer is replaced by an error item after
//!            parsing)
//!          | "var" IDENT (":" type)? ("=" sum)?
//! sum     := product (("+"|"-") product)*         (left fold)
//! product := unary (("*"|"/"|"%"|"**") unary)*    (left fold)
//! unary   := ("-"|"!")* atom                      (right fold)
//! atom    := literal | "(" sum ")"
//! type    := "()" | IDENT ("." IDENT)*
//! ```
//!
//! The `sp_` spec functions below are the reference grammar: each executable
//! parsing function is proved to return exactly what they describe.

use vstd::prelude::*;

use crate::ast::BinaryOperator;
use crate::ast::BindingFlags;
use crate::ast::BindingKind;
use crate::ast::BindingPattern;
use crate::ast::ExprV;
use crate::ast::Expression;
use crate::ast::ExpressionKind;
use crate::ast::Identifier;
use crate::ast::Item;
use crate::ast::ItemKind;
use crate::ast::Local;
use crate::ast::Name;
use crate::ast::NameSegment;
use crate::ast::NodeId;
use crate::ast::Statement;
use crate::ast::StatementKind;
use crate::ast::TypeAnno;
use crate::ast::TypeKind;
use crate::ast::UnaryOperator;
use crate::ast::clone_bytes;
use crate::ast::name_texts;
use crate::error::SyntaxError;
use crate::error::SyntaxErrorKind;
use crate::lexer::lex;
use crate::lexer::lex_output_ok;
use crate::lexer::lex_error_ok;
use crate::lexer::non_trivia;
use crate::literal::LitV;
use crate::literal::LiteralKind;
use crate::span::CheapRange;
use crate::span::SourceId;
use crate::span::SourceSpan;
use crate::token::Token;
use crate::token::TokenKind;

verus! {

// --- Token classification ---------------------------------------------------

/// The literal value a token yields when it stands as an expression atom.
pub open spec fn tok_lit(k: TokenKind) -> Option<LitV> {
    match k {
        TokenKind::Integer(v) => Some(LitV::Int(v as int)),
        TokenKind::Boolean(b) => Some(LitV::Bool(b)),
        TokenKind::Char(c) => Some(LitV::Char(c)),
        TokenKind::Float(text) => Some(LitV::Float(text@)),
        TokenKind::String(points) => Some(LitV::Str(points@)),
        _ => None,
    }
}

pub open spec fn unary_op_of(k: TokenKind) -> Option<UnaryOperator> {
    match k {
        TokenKind::Minus => Some(UnaryOperator::Negation),
        TokenKind::Not => Some(UnaryOperator::Not),
        _ => None,
    }
}

pub open spec fn product_op_of(k: TokenKind) -> Option<BinaryOperator> {
    match k {
        TokenKind::Star => Some(BinaryOperator::Multiply),
        TokenKind::Slash => Some(BinaryOperator::Divide),
        TokenKind::Percent => Some(BinaryOperator::Modulo),
        TokenKind::DoubleStar => Some(BinaryOperator::Power),
        _ => None,
    }
}

pub open spec fn sum_op_of(k: TokenKind) -> Option<BinaryOperator> {
    match k {
        TokenKind::Plus => Some(BinaryOperator::Add),
        TokenKind::Minus => Some(BinaryOperator::Subtract),
        _ => None,
    }
}

// --- The reference grammar over tokens --------------------------------------

/// `atom := literal | "(" sum ")"`. Yields the expression shape and the index
/// just past it.
pub open spec fn sp_atom(ts: Seq<Token>, i: int) -> Option<(ExprV, int)>
    decreases ts.len() - i, 0int,
{
    if i < 0 || i >= ts.len() {
        None
    } else if tok_lit(ts[i].kind) is Some {
        Some((ExprV::Lit(tok_lit(ts[i].kind).unwrap()), i + 1))
    } else if ts[i].kind is OpenDelim {
        match sp_sum(ts, i + 1) {
            Some((e, j)) => if 0 <= j < ts.len() && ts[j].kind is CloseDelim {
                Some((e, j + 1))
            } else {
                None
            },
            None => None,
        }
    } else {
        None
    }
}

/// `unary := ("-"|"!")* atom`: operators bind innermost-out (right fold).
pub open spec fn sp_unary(ts: Seq<Token>, i: int) -> Option<(ExprV, int)>
    decreases ts.len() - i, 1int,
{
    if i < 0 || i >= ts.len() {
        None
    } else {
        match unary_op_of(ts[i].kind) {
            Some(op) => match sp_unary(ts, i + 1) {
                Some((e, j)) => Some((ExprV::Unary(op, Box::new(e)), j)),
                None => None,
            },
            None => sp_atom(ts, i),
        }
    }
}

/// The left fold of `product := unary (("*"|"/"|"%"|"**") unary)*` after its
/// first operand.
pub open spec fn sp_product_rest(ts: Seq<Token>, acc: ExprV, j: int) -> (ExprV, int)
    decreases ts.len() - j, 3int,
{
    if j < 0 || j >= ts.len() {
        (acc, j)
    } else {
        match product_op_of(ts[j].kind) {
            Some(op) => match sp_unary(ts, j + 1) {
                Some((e2, k)) => if j < k <= ts.len() {
                    sp_product_rest(ts, ExprV::Binary(op, Box::new(acc), Box::new(e2)), k)
                } else {
                    (acc, j)
                },
                None => (acc, j),
            },
            None => (acc, j),
        }
    }
}

pub open spec fn sp_product(ts: Seq<Token>, i: int) -> Option<(ExprV, int)>
    decreases ts.len() - i, 2int,
{
    match sp_unary(ts, i) {
        Some((e, j)) => if i < j <= ts.len() {
            Some(sp_product_rest(ts, e, j))
        } else {
            Some((e, j))
        },
        None => None,
    }
}

/// The left fold of `sum := product (("+"|"-") product)*` after its first
/// operand.
pub open spec fn sp_sum_rest(ts: Seq<Token>, acc: ExprV, j: int) -> (ExprV, int)
    decreases ts.len() - j, 5int,
{
    if j < 0 || j >= ts.len() {
        (acc, j)
    } else {
        match sum_op_of(ts[j].kind) {
            Some(op) => match sp_product(ts, j + 1) {
                Some((e2, k)) => if j < k <= ts.len() {
                    sp_sum_rest(ts, ExprV::Binary(op, Box::new(acc), Box::new(e2)), k)
                } else {
                    (acc, j)
                },
                None => (acc, j),
            },
            None => (acc, j),
        }
    }
}

/// An expression: the lowest tier of the precedence climb.
pub open spec fn sp_sum(ts: Seq<Token>, i: int) -> Option<(ExprV, int)>
    decreases ts.len() - i, 4int,
{
    match sp_product(ts, i) {
        Some((e, j)) => if i < j <= ts.len() {
            Some(sp_sum_rest(ts, e, j))
        } else {
            Some((e, j))
        },
        None => None,
    }
}

// --- The parser state -------------------------------------------------------

pub struct Parser {
    pub tokens: Vec<Token>,
    pub pos: usize,
    pub next_id: i64,
    pub errors: Vec<SyntaxError>,
    pub src_id: SourceId,
}

/// The boilerplate part of every parsing method's contract: the token
/// sequence and source id stay as they are, the position only moves forward,
/// and recorded diagnostics are never dropped.
pub open spec fn parser_step(pre: Parser, post: Parser) -> bool {
    &&& post.tokens == pre.tokens
    &&& post.src_id == pre.src_id
    &&& pre.pos <= post.pos <= pre.tokens@.len()
    &&& pre.next_id <= post.next_id
    &&& post.errors@.len() >= pre.errors@.len()
    &&& forall|k: int| 0 <= k < pre.errors@.len() ==> #[trigger] post.errors@[k] == pre.errors@[k]
}

pub open spec fn parser_wf(p: Parser) -> bool {
    p.pos <= p.tokens@.len()
}

/// What every expression parser promises of a produced expression: its shape
/// and end position are the reference grammar's, at least one token was
/// consumed, and every inner node's span is the union of its operands' spans.
pub open spec fn expr_result_ok(pre: Parser, post: Parser, e: Expression) -> bool {
    &&& post.pos > pre.pos
    &&& expr_spans_ok_here(e)
}

pub open spec fn expr_spans_ok_here(e: Expression) -> bool {
    crate::ast::expr_spans_ok(e)
}

impl Parser {
    pub fn new(tokens: Vec<Token>, src_id: SourceId) -> (r: Self)
        ensures
            r.tokens == tokens,
            r.pos == 0,
            r.errors@ == Seq::<SyntaxError>::empty(),
            r.src_id == src_id,
    {
        Parser { tokens, pos: 0, next_id: 0, errors: Vec::new(), src_id }
    }

    /// Mints the next node id: the id handed out is the counter's value, and
    /// the counter advances by one until it saturates at the largest id.
    fn mint_id(&mut self) -> (r: NodeId)
        ensures
            final(self).tokens == old(self).tokens,
            final(self).pos == old(self).pos,
            final(self).errors == old(self).errors,
            final(self).src_id == old(self).src_id,
            r == (NodeId(old(self).next_id)),
            final(self).next_id as int == if old(self).next_id < i64::MAX {
                old(self).next_id + 1
            } else {
                old(self).next_id as int
            },
    {
        let id = self.next_id;
        if self.next_id < i64::MAX {
            self.next_id = self.next_id + 1;
        }
        NodeId(id)
    }

    /// `atom := literal | "(" sum ")"`
    #[verifier::rlimit(50)]
    fn atom(&mut self) -> (r: Option<Expression>)
        requires
            parser_wf(*old(self)),
        ensures
            parser_wf(*final(self)),
            parser_step(*old(self), *final(self)),
            final(self).errors == old(self).errors,
            match r {
                Some(e) => sp_atom(old(self).tokens@, old(self).pos as int) == Some(
                    (crate::ast::expr_view(e), final(self).pos as int),
                ) && expr_result_ok(*old(self), *final(self), e),
                None => sp_atom(old(self).tokens@, old(self).pos as int) is None && final(self).pos == old(self).pos,
            },
        decreases old(self).tokens@.len() - old(self).pos, 0int,
    {
        let start = self.pos;
        if start >= self.tokens.len() {
            return None;
        }
        let lit: Option<LiteralKind> = match &self.tokens[start].kind {
            TokenKind::Integer(v) => Some(LiteralKind::Integer(*v)),
            TokenKind::Boolean(b) => Some(LiteralKind::Boolean(*b)),
            TokenKind::Char(c) => Some(LiteralKind::Char(*c)),
            TokenKind::Float(text) => Some(LiteralKind::Float(clone_bytes(text))),
            TokenKind::String(points) => {
                let mut copy: Vec<u32> = Vec::new();
                let mut k: usize = 0;
                let n = points.len();
                while k < n
                    invariant
                        k <= n == points@.len(),
                        copy@ == points@.take(k as int),
                        points == old(self).tokens@[start as int].kind->String_0,
                        start < old(self).tokens@.len(),
                        self == old(self),
                    decreases n - k,
                {
                    copy.push(points[k]);
                    proof {
                        assert(points@.take(k + 1) =~= points@.take(k as int).push(
                            points@[k as int],
                        ));
                    }
                    k = k + 1;
                }
                proof {
                    assert(copy@ =~= points@);
                }
                Some(LiteralKind::String(copy))
            },
            _ => None,
        };
        if let Some(lit) = lit {
            let span = self.tokens[start].span;
            self.pos = start + 1;
            let id = self.mint_id();
            let e = Expression { id, kind: ExpressionKind::Literal(lit), span };
            return Some(e);
        }
        let is_open = match &self.tokens[start].kind {
            TokenKind::OpenDelim(_) => true,
            _ => false,
        };
        if is_open {
            self.pos = start + 1;
            match self.sum() {
                Some(e) => {
                    let j = self.pos;
                    let mut is_close = false;
                    if j < self.tokens.len() {
                        is_close = match &self.tokens[j].kind {
                            TokenKind::CloseDelim(_) => true,
                            _ => false,
                        };
                    }
                    if is_close {
                        self.pos = j + 1;
                        Some(e)
                    } else {
                        self.pos = start;
                        None
                    }
                },
                None => {
                    self.pos = start;
                    None
                },
            }
        } else {
            None
        }
    }

    /// `unary := ("-"|"!")* atom`
    fn unary(&mut self) -> (r: Option<Expression>)
        requires
            parser_wf(*old(self)),
        ensures
            parser_wf(*final(self)),
            parser_step(*old(self), *final(self)),
            final(self).errors == old(self).errors,
            match r {
                Some(e) => sp_unary(old(self).tokens@, old(self).pos as int) == Some(
                    (crate::ast::expr_view(e), final(self).pos as int),
                ) && expr_result_ok(*old(self), *final(self), e),
                None => sp_unary(old(self).tokens@, old(self).pos as int) is None && final(self).pos == old(self).pos,
            },
        decreases old(self).tokens@.len() - old(self).pos, 1int,
    {
        let start = self.pos;
        if start >= self.tokens.len() {
            return None;
        }
        let op: Option<UnaryOperator> = match &self.tokens[start].kind {
            TokenKind::Minus => Some(UnaryOperator::Negation),
            TokenKind::Not => Some(UnaryOperator::Not),
            _ => None,
        };
        match op {
            Some(op) => {
                self.pos = start + 1;
                match self.unary() {
                    Some(rhs) => {
                        let span = rhs.span;
                        let id = self.mint_id();
                        let e = Expression {
                            id,
                            kind: ExpressionKind::Unary(op, Box::new(rhs)),
                            span,
                        };
                        Some(e)
                    },
                    None => {
                        self.pos = start;
                        None
                    },
                }
            },
            None => self.atom(),
        }
    }

    /// `product := unary (("*"|"/"|"%"|"**") unary)*`, folding left.
    #[verifier::loop_isolation(false)]
    fn product(&mut self) -> (r: Option<Expression>)
        requires
            parser_wf(*old(self)),
        ensures
            parser_wf(*final(self)),
            parser_step(*old(self), *final(self)),
            final(self).errors == old(self).errors,
            match r {
                Some(e) => sp_product(old(self).tokens@, old(self).pos as int) == Some(
                    (crate::ast::expr_view(e), final(self).pos as int),
                ) && expr_result_ok(*old(self), *final(self), e),
                None => sp_product(old(self).tokens@, old(self).pos as int) is None && final(self).pos == old(self).pos,
            },
        decreases old(self).tokens@.len() - old(self).pos, 2int,
    {
        let ghost ts = self.tokens@;
        let ghost i0 = self.pos as int;
        let first = match self.unary() {
            Some(e) => e,
            None => {
                return None;
            },
        };
        let mut acc = first;
        let mut done = false;
        while !done
            invariant
                parser_wf(*self),
                self.tokens == old(self).tokens,
                self.tokens@ == ts,
                self.src_id == old(self).src_id,
                i0 < self.pos <= ts.len(),
                old(self).pos == i0,
                old(self).next_id <= self.next_id,
                self.errors == old(self).errors,
                expr_spans_ok_here(acc),
                !done ==> sp_product(ts, i0) == Some(
                    (sp_product_rest(ts, crate::ast::expr_view(acc), self.pos as int)),
                ),
                done ==> sp_product(ts, i0) == Some(
                    (crate::ast::expr_view(acc), self.pos as int),
                ),
            decreases ts.len() - self.pos + (if done { 0int } else { 1int }),
        {
            let j = self.pos;
            if j >= self.tokens.len() {
                done = true;
            } else {
                let op: Option<BinaryOperator> = match &self.tokens[j].kind {
                    TokenKind::Star => Some(BinaryOperator::Multiply),
                    TokenKind::Slash => Some(BinaryOperator::Divide),
                    TokenKind::Percent => Some(BinaryOperator::Modulo),
                    TokenKind::DoubleStar => Some(BinaryOperator::Power),
                    _ => None,
                };
                match op {
                    None => {
                        done = true;
                    },
                    Some(op) => {
                        self.pos = j + 1;
                        match self.unary() {
                            None => {
                                self.pos = j;
                                done = true;
                            },
                            Some(rhs) => {
                                let span = SourceSpan::from_start_end(acc.span, rhs.span);
                                let id = self.mint_id();
                                acc = Expression {
                                    id,
                                    kind: ExpressionKind::Binary(op, Box::new(acc), Box::new(rhs)),
                                    span,
                                };
                            },
                        }
                    },
                }
            }
        }
        Some(acc)
    }

    /// `sum := product (("+"|"-") product)*`, folding left.
    #[verifier::loop_isolation(false)]
    fn sum(&mut self) -> (r: Option<Expression>)
        requires
            parser_wf(*old(self)),
        ensures
            parser_wf(*final(self)),
            parser_step(*old(self), *final(self)),
            final(self).errors == old(self).errors,
            match r {
                Some(e) => sp_sum(old(self).tokens@, old(self).pos as int) == Some(
                    (crate::ast::expr_view(e), final(self).pos as int),
                ) && expr_result_ok(*old(self), *final(self), e),
                None => sp_sum(old(self).tokens@, old(self).pos as int) is None && final(self).pos == old(self).pos,
            },
        decreases old(self).tokens@.len() - old(self).pos, 4int,
    {
        let ghost ts = self.tokens@;
        let ghost i0 = self.pos as int;
        let first = match self.product() {
            Some(e) => e,
            None => {
                return None;
            },
        };
        let mut acc = first;
        let mut done = false;
        while !done
            invariant
                parser_wf(*self),
                self.tokens == old(self).tokens,
                self.tokens@ == ts,
                self.src_id == old(self).src_id,
                i0 < self.pos <= ts.len(),
                old(self).pos == i0,
                old(self).next_id <= self.next_id,
                self.errors == old(self).errors,
                expr_spans_ok_here(acc),
                !done ==> sp_sum(ts, i0) == Some(
                    (sp_sum_rest(ts, crate::ast::expr_view(acc), self.pos as int)),
                ),
                done ==> sp_sum(ts, i0) == Some((crate::ast::expr_view(acc), self.pos as int)),
            decreases ts.len() - self.pos + (if done { 0int } else { 1int }),
        {
            let j = self.pos;
            if j >= self.tokens.len() {
                done = true;
            } else {
                let op: Option<BinaryOperator> = match &self.tokens[j].kind {
                    TokenKind::Plus => Some(BinaryOperator::Add),
                    TokenKind::Minus => Some(BinaryOperator::Subtract),
                    _ => None,
                };
                match op {
                    None => {
                        done = true;
                    },
                    Some(op) => {
                        self.pos = j + 1;
                        match self.product() {
                            None => {
                                self.pos = j;
                                done = true;
                            },
                            Some(rhs) => {
                                let span = SourceSpan::from_start_end(acc.span, rhs.span);
                                let id = self.mint_id();
                                acc = Expression {
                                    id,
                                    kind: ExpressionKind::Binary(op, Box::new(acc), Box::new(rhs)),
                                    span,
                                };
                            },
                        }
                    },
                }
            }
        }
        Some(acc)
    }
}

// --- Statements and type annotations in the reference grammar ---------------

/// The shape of a type annotation: `()`, the explicit inference placeholder,
/// or a qualified name given by its segment texts.
pub enum AnnoV {
    Unit,
    Infer,
    Named(Seq<Seq<u8>>),
}

/// The shape of a parsed local binding.
pub struct LocalV {
    pub mutable: bool,
    pub name: Seq<u8>,
    pub anno: Option<AnnoV>,
    pub init: Option<ExprV>,
}

/// The shape of a top-level item.
pub enum ItemV {
    Stmt(LocalV),
    Expr(ExprV),
    Error,
    Other,
}

/// `("." IDENT)*` after the first segment of a qualified name.
pub open spec fn sp_name_rest(ts: Seq<Token>, segs: Seq<Seq<u8>>, j: int) -> (Seq<Seq<u8>>, int)
    decreases ts.len() - j, 0int,
{
    if j < 0 || j + 1 >= ts.len() {
        (segs, j)
    } else if ts[j].kind is Dot {
        match ts[j + 1].kind {
            TokenKind::Identifier(name) => sp_name_rest(ts, segs.push(name@), j + 2),
            _ => (segs, j),
        }
    } else {
        (segs, j)
    }
}

/// `type := "()" | IDENT ("." IDENT)*`
pub open spec fn sp_type_anno(ts: Seq<Token>, i: int) -> Option<(AnnoV, int)>
    decreases ts.len() - i, 1int,
{
    if i < 0 || i >= ts.len() {
        None
    } else if ts[i].kind is OpenDelim {
        if i + 1 < ts.len() && ts[i + 1].kind is CloseDelim {
            Some((AnnoV::Unit, i + 2))
        } else {
            None
        }
    } else {
        match ts[i].kind {
            TokenKind::Identifier(name) => {
                let (segs, j) = sp_name_rest(ts, seq![name@], i + 1);
                Some((AnnoV::Named(segs), j))
            },
            _ => None,
        }
    }
}

/// `local := ("let"|"var") IDENT (":" type)? ("=" sum)?`
///
/// Whether an initializer may be omitted is not decided here: an uninitialized
/// immutable binding parses and is rejected by post-parse validation.
pub open spec fn sp_local(ts: Seq<Token>, i: int) -> Option<(LocalV, int)>
    decreases ts.len() - i, 6int,
{
    if i < 0 || i + 1 >= ts.len() {
        None
    } else if !(ts[i].kind is Let || ts[i].kind is Var) {
        None
    } else {
        match ts[i + 1].kind {
            TokenKind::Identifier(name) => {
                let with_anno: Option<(Option<AnnoV>, int)> = if i + 2 < ts.len() && ts[
                    i + 2
                ].kind is Colon {
                    match sp_type_anno(ts, i + 3) {
                        Some((a, j)) => if i + 2 < j <= ts.len() {
                            Some((Some(a), j))
                        } else {
                            None
                        },
                        None => None,
                    }
                } else {
                    Some((None, i + 2))
                };
                match with_anno {
                    None => None,
                    Some((anno, j)) => if j < ts.len() && ts[j].kind is Equals {
                        match sp_sum(ts, j + 1) {
                            Some((e, k)) => if j < k <= ts.len() {
                                Some(
                                    (
                                        LocalV {
                                            mutable: ts[i].kind is Var,
                                            name: name@,
                                            anno,
                                            init: Some(e),
                                        },
                                        k,
                                    ),
                                )
                            } else {
                                None
                            },
                            None => None,
                        }
                    } else {
                        Some(
                            (
                                LocalV {
                                    mutable: ts[i].kind is Var,
                                    name: name@,
                                    anno,
                                    init: None,
                                },
                                j,
                            ),
                        )
                    },
                }
            },
            _ => None,
        }
    }
}

/// The whole item list, with recovery and post-parse validation folded in: a
/// token that cannot start a statement, a malformed statement, and an
/// uninitialized immutable binding each leave an error item behind, and
/// parsing continues.
pub open spec fn sp_items(ts: Seq<Token>, i: int) -> Seq<ItemV>
    decreases ts.len() - i, 7int,
{
    if i < 0 || i >= ts.len() {
        Seq::empty()
    } else if ts[i].kind is Let || ts[i].kind is Var {
        match sp_local(ts, i) {
            Some((loc, j)) => if i < j <= ts.len() {
                let item = if !loc.mutable && loc.init is None {
                    ItemV::Error
                } else {
                    ItemV::Stmt(loc)
                };
                seq![item] + sp_items(ts, j)
            } else {
                seq![ItemV::Error]
            },
            None => seq![ItemV::Error] + sp_items(ts, i + 1),
        }
    } else {
        match sp_sum(ts, i) {
            Some((e, j)) => if i < j <= ts.len() {
                seq![ItemV::Expr(e)] + sp_items(ts, j)
            } else {
                seq![ItemV::Error]
            },
            None => seq![ItemV::Error] + sp_items(ts, i + 1),
        }
    }
}

// --- Views of the built tree ------------------------------------------------

pub open spec fn anno_view(a: TypeAnno) -> AnnoV {
    match a.kind {
        TypeKind::Unit => AnnoV::Unit,
        TypeKind::Infer => AnnoV::Infer,
        TypeKind::Named(name) => AnnoV::Named(name_texts(name.segments@)),
    }
}

pub open spec fn local_view(l: Local) -> LocalV {
    LocalV {
        mutable: l.binding_flags.mutable,
        name: match l.pattern {
            BindingPattern::Identifier(id) => id.name@,
        },
        anno: match l.ty {
            Some(a) => Some(anno_view(a)),
            None => None,
        },
        init: match l.binding_kind {
            BindingKind::Declared => None,
            BindingKind::Inited(e) => Some(crate::ast::expr_view(*e)),
        },
    }
}

pub open spec fn item_view(it: Item) -> ItemV {
    match it.kind {
        ItemKind::Statement(st) => match st.kind {
            StatementKind::Local(l) => ItemV::Stmt(local_view(l)),
        },
        ItemKind::Expression(e) => ItemV::Expr(crate::ast::expr_view(e)),
        ItemKind::Error(_) => ItemV::Error,
        _ => ItemV::Other,
    }
}

/// The span a parsed local statement covers: from the keyword to the bound
/// identifier.
pub open spec fn sp_local_span(ts: Seq<Token>, i: int) -> SourceSpan {
    SourceSpan {
        src: ts[i].span.src,
        range: CheapRange { start: ts[i].span.range.start, end: ts[i + 1].span.range.end },
    }
}

/// The diagnostic an uninitialized immutable binding leaves: the statement's
/// span, with the zero-width span just past it marking where the initializer
/// would have begun.
pub open spec fn sp_uninited_error(span: SourceSpan) -> SyntaxError {
    SyntaxError {
        kind: SyntaxErrorKind::UninitedImmutable {
            expr_start: SourceSpan {
                src: span.src,
                range: CheapRange { start: span.range.end, end: span.range.end },
            },
        },
        span,
    }
}

/// The diagnostics the item parse leaves, in order: one unexpected-token
/// error per recovery step, one uninitialized-immutable error per rejected
/// binding, and none at all where the grammar accepts the input.
pub open spec fn sp_parse_errors(ts: Seq<Token>, i: int) -> Seq<SyntaxError>
    decreases ts.len() - i, 8int,
{
    if i < 0 || i >= ts.len() {
        Seq::empty()
    } else if ts[i].kind is Let || ts[i].kind is Var {
        match sp_local(ts, i) {
            Some((loc, j)) => if i < j <= ts.len() {
                if !loc.mutable && loc.init is None {
                    seq![sp_uninited_error(sp_local_span(ts, i))] + sp_parse_errors(ts, j)
                } else {
                    sp_parse_errors(ts, j)
                }
            } else {
                Seq::empty()
            },
            None => seq![
                SyntaxError { kind: SyntaxErrorKind::UnexpectedToken, span: ts[i].span },
            ] + sp_parse_errors(ts, i + 1),
        }
    } else {
        match sp_sum(ts, i) {
            Some((e, j)) => if i < j <= ts.len() {
                sp_parse_errors(ts, j)
            } else {
                Seq::empty()
            },
            None => seq![
                SyntaxError { kind: SyntaxErrorKind::UnexpectedToken, span: ts[i].span },
            ] + sp_parse_errors(ts, i + 1),
        }
    }
}

/// Span discipline of a parsed statement: the statement and its local share
/// one span, and the initializer's inner spans are well-formed.
pub open spec fn statement_spans_ok(st: Statement) -> bool {
    match st.kind {
        StatementKind::Local(l) => {
            &&& st.span == l.span
            &&& match l.binding_kind {
                BindingKind::Inited(e) => crate::ast::expr_spans_ok(*e),
                BindingKind::Declared => true,
            }
        },
    }
}

/// Span discipline of a parsed type annotation: it runs from the first token
/// read (the opening delimiter, or the first name segment) to the last (the
/// closing delimiter, or the last segment), and a named annotation's name
/// carries the same span.
pub open spec fn anno_span_ok(ts: Seq<Token>, start: int, end: int, a: TypeAnno) -> bool {
    &&& a.span.src == ts[start].span.src
    &&& a.span.range.start == ts[start].span.range.start
    &&& a.span.range.end == ts[end - 1].span.range.end
    &&& match a.kind {
        TypeKind::Named(name) => name.span == a.span,
        _ => true,
    }
}

/// Span discipline of a parsed item: an item shares its payload's span, and
/// every expression inside keeps the span-union discipline.
pub open spec fn item_spans_ok(it: Item) -> bool {
    match it.kind {
        ItemKind::Expression(e) => it.span == e.span && crate::ast::expr_spans_ok(e),
        ItemKind::Statement(st) => it.span == st.span && statement_spans_ok(st),
        _ => true,
    }
}

/// The shape of a parsed statement (statements are currently only locals).
pub open spec fn statement_view(st: Statement) -> LocalV {
    match st.kind {
        StatementKind::Local(l) => local_view(l),
    }
}

pub open spec fn items_view(items: Seq<Item>) -> Seq<ItemV> {
    items.map_values(|it: Item| item_view(it))
}

proof fn lemma_items_view_push(items: Seq<Item>, it: Item)
    ensures
        items_view(items.push(it)) == items_view(items).push(item_view(it)),
{
    assert(items_view(items.push(it)) =~= items_view(items).push(item_view(it)));
}

impl Parser {
    /// `type := "()" | IDENT ("." IDENT)*`
    pub fn type_anno(&mut self) -> (r: Option<TypeAnno>)
        requires
            parser_wf(*old(self)),
        ensures
            parser_wf(*final(self)),
            parser_step(*old(self), *final(self)),
            final(self).errors == old(self).errors,
            match r {
                Some(a) => sp_type_anno(old(self).tokens@, old(self).pos as int) == Some(
                    (anno_view(a), final(self).pos as int),
                ) && final(self).pos > old(self).pos && anno_span_ok(
                    old(self).tokens@,
                    old(self).pos as int,
                    final(self).pos as int,
                    a,
                ),
                None => sp_type_anno(old(self).tokens@, old(self).pos as int) is None && final(self).pos == old(self).pos,
            },
    {
        let ghost ts = self.tokens@;
        let start = self.pos;
        if start >= self.tokens.len() {
            return None;
        }
        let is_open = match &self.tokens[start].kind {
            TokenKind::OpenDelim(_) => true,
            _ => false,
        };
        if is_open {
            let mut is_unit = false;
            if start + 1 < self.tokens.len() {
                is_unit = match &self.tokens[start + 1].kind {
                    TokenKind::CloseDelim(_) => true,
                    _ => false,
                };
            }
            if is_unit {
                let span = SourceSpan::from_start_end(
                    self.tokens[start].span,
                    self.tokens[start + 1].span,
                );
                self.pos = start + 2;
                let id = self.mint_id();
                Some(TypeAnno { id, kind: TypeKind::Unit, span })
            } else {
                None
            }
        } else {
            let first: Identifier = match &self.tokens[start].kind {
                TokenKind::Identifier(n) => Identifier {
                    name: clone_bytes(n),
                    span: self.tokens[start].span,
                },
                _ => {
                    return None;
                },
            };
            let ghost first_name: Seq<u8> = first.name@;
            let ghost target = sp_name_rest(ts, seq![first_name], start + 1);
            let first_span = first.span;
            let mut last_span = first.span;
            let mut segs: Vec<NameSegment> = Vec::new();
            segs.push(NameSegment(first));
            self.pos = start + 1;
            proof {
                assert(name_texts(segs@) =~= seq![first_name]);
            }
            let mut done = false;
            while !done
                invariant
                    parser_wf(*self),
                    self.tokens == old(self).tokens,
                    self.tokens@ == ts,
                    self.src_id == old(self).src_id,
                    self.errors == old(self).errors,
                    start < self.pos <= ts.len(),
                    old(self).pos == start,
                    old(self).next_id <= self.next_id,
                    last_span == ts[self.pos - 1].span,
                    segs@.len() >= 1,
                    !done ==> sp_name_rest(ts, name_texts(segs@), self.pos as int) == target,
                    done ==> (name_texts(segs@), self.pos as int) == target,
                decreases ts.len() - self.pos + (if done { 0int } else { 1int }),
            {
                let j = self.pos;
                if self.tokens.len() - j <= 1 {
                    done = true;
                } else {
                    let is_dot = match &self.tokens[j].kind {
                        TokenKind::Dot => true,
                        _ => false,
                    };
                    if !is_dot {
                        done = true;
                    } else {
                        match &self.tokens[j + 1].kind {
                            TokenKind::Identifier(n2) => {
                                let seg_ident = Identifier {
                                    name: clone_bytes(n2),
                                    span: self.tokens[j + 1].span,
                                };
                                last_span = seg_ident.span;
                                let ghost before = segs@;
                                segs.push(NameSegment(seg_ident));
                                self.pos = j + 2;
                                proof {
                                    assert(name_texts(segs@) =~= name_texts(before).push(
                                        ts[j + 1].kind->Identifier_0@,
                                    ));
                                }
                            },
                            _ => {
                                done = true;
                            },
                        }
                    }
                }
            }
            let name_span = first_span.copy_from_ending_at(last_span.end());
            let id = self.mint_id();
            Some(
                TypeAnno {
                    id,
                    kind: TypeKind::Named(Name { span: name_span, segments: segs }),
                    span: name_span,
                },
            )
        }
    }

    /// `local := ("let"|"var") IDENT (":" type)? ("=" sum)?`
    ///
    /// The statement's span runs from the keyword to the bound identifier.
    #[verifier::rlimit(50)]
    fn local(&mut self) -> (r: Option<Statement>)
        requires
            parser_wf(*old(self)),
        ensures
            parser_wf(*final(self)),
            parser_step(*old(self), *final(self)),
            final(self).errors == old(self).errors,
            match r {
                Some(st) => sp_local(old(self).tokens@, old(self).pos as int) == Some(
                    (statement_view(st), final(self).pos as int),
                ) && final(self).pos > old(self).pos && st.span == sp_local_span(
                    old(self).tokens@,
                    old(self).pos as int,
                ) && statement_spans_ok(st),
                None => sp_local(old(self).tokens@, old(self).pos as int) is None && final(self).pos == old(self).pos,
            },
    {
        let ghost ts = self.tokens@;
        let start = self.pos;
        if start >= self.tokens.len() {
            return None;
        }
        if start + 1 >= self.tokens.len() {
            return None;
        }
        let mutable = match &self.tokens[start].kind {
            TokenKind::Var => true,
            TokenKind::Let => false,
            _ => {
                return None;
            },
        };
        let ident: Identifier = match &self.tokens[start + 1].kind {
            TokenKind::Identifier(n) => Identifier {
                name: clone_bytes(n),
                span: self.tokens[start + 1].span,
            },
            _ => {
                return None;
            },
        };
        self.pos = start + 2;
        let mut anno: Option<TypeAnno> = None;
        if start + 2 < self.tokens.len() {
            let is_colon = match &self.tokens[start + 2].kind {
                TokenKind::Colon => true,
                _ => false,
            };
            if is_colon {
                self.pos = start + 3;
                match self.type_anno() {
                    Some(a) => {
                        anno = Some(a);
                    },
                    None => {
                        self.pos = start;
                        return None;
                    },
                }
            }
        }
        let j = self.pos;
        let mut init: Option<Expression> = None;
        if j < self.tokens.len() {
            let is_eq = match &self.tokens[j].kind {
                TokenKind::Equals => true,
                _ => false,
            };
            if is_eq {
                self.pos = j + 1;
                match self.sum() {
                    Some(e) => {
                        init = Some(e);
                    },
                    None => {
                        self.pos = start;
                        return None;
                    },
                }
            }
        }
        let span = self.tokens[start].span.copy_from_ending_at(ident.span.end());
        let local_id = self.mint_id();
        let stmt_id = self.mint_id();
        let binding_kind = match init {
            Some(e) => BindingKind::Inited(Box::new(e)),
            None => BindingKind::Declared,
        };
        Some(
            Statement {
                id: stmt_id,
                kind: StatementKind::Local(
                    Local {
                        id: local_id,
                        span,
                        binding_kind,
                        binding_flags: BindingFlags { mutable },
                        pattern: BindingPattern::Identifier(ident),
                        ty: anno,
                    },
                ),
                span,
            },
        )
    }
}

/// Parses an already-lexed token sequence into the item list, with recovery:
/// the result is exactly what the reference grammar (with validation folded
/// in) describes, and every diagnostic is one of the parser's two kinds.
#[verifier::rlimit(50)]
pub fn parse_tokens(tokens: Vec<Token>, src_id: SourceId) -> (r: (Vec<Item>, Vec<SyntaxError>))
    ensures
        items_view(r.0@) == sp_items(tokens@, 0),
        r.1@ == sp_parse_errors(tokens@, 0),
        forall|k: int| 0 <= k < r.0@.len() ==> item_spans_ok(#[trigger] r.0@[k]),
{
    let ghost ts = tokens@;
    let mut p = Parser::new(tokens, src_id);
    let mut items: Vec<Item> = Vec::new();
    proof {
        assert(items_view(items@) =~= Seq::<ItemV>::empty());
    }
    while p.pos < p.tokens.len()
        invariant
            parser_wf(p),
            p.tokens@ == ts,
            sp_items(ts, 0) == items_view(items@) + sp_items(ts, p.pos as int),
            sp_parse_errors(ts, 0) == p.errors@ + sp_parse_errors(ts, p.pos as int),
            forall|k: int| 0 <= k < items@.len() ==> item_spans_ok(#[trigger] items@[k]),
        decreases ts.len() - p.pos,
    {
        let start = p.pos;
        let ghost items_before = items@;
        let ghost errors_before = p.errors@;
        let ghost tail_before = sp_items(ts, start as int);
        let ghost err_tail_before = sp_parse_errors(ts, start as int);
        let is_kw = match &p.tokens[start].kind {
            TokenKind::Let => true,
            TokenKind::Var => true,
            _ => false,
        };
        if is_kw {
            match p.local() {
                Some(st) => {
                    let (mutable, has_init) = match &st.kind {
                        StatementKind::Local(l) => (
                            l.binding_flags.mutable,
                            match &l.binding_kind {
                                BindingKind::Inited(_) => true,
                                BindingKind::Declared => false,
                            },
                        ),
                    };
                    if !mutable && !has_init {
                        let expr_start = st.span.copy_from_starting_at(st.span.end());
                        let err = SyntaxError::new(
                            SyntaxErrorKind::UninitedImmutable { expr_start },
                            st.span,
                        );
                        proof {
                            assert(err == sp_uninited_error(sp_local_span(ts, start as int)));
                        }
                        p.errors.push(err);
                        let item = Item::error(st.span, Vec::new());
                        proof {
                            lemma_items_view_push(items_before, item);
                        }
                        items.push(item);
                    } else {
                        let span = st.span;
                        let id = p.mint_id();
                        let item = Item { id, kind: ItemKind::Statement(st), span };
                        proof {
                            lemma_items_view_push(items_before, item);
                        }
                        items.push(item);
                    }
                },
                None => {
                    let span = p.tokens[start].span;
                    p.errors.push(SyntaxError::new(SyntaxErrorKind::UnexpectedToken, span));
                    let item = Item::error(span, Vec::new());
                    proof {
                        lemma_items_view_push(items_before, item);
                    }
                    items.push(item);
                    p.pos = start + 1;
                },
            }
        } else {
            match p.sum() {
                Some(e) => {
                    let span = e.span;
                    let id = p.mint_id();
                    let item = Item { id, kind: ItemKind::Expression(e), span };
                    proof {
                        lemma_items_view_push(items_before, item);
                    }
                    items.push(item);
                },
                None => {
                    let span = p.tokens[start].span;
                    p.errors.push(SyntaxError::new(SyntaxErrorKind::UnexpectedToken, span));
                    let item = Item::error(span, Vec::new());
                    proof {
                        lemma_items_view_push(items_before, item);
                    }
                    items.push(item);
                    p.pos = start + 1;
                },
            }
        }
        proof {
            assert(sp_items(ts, 0) == items_view(items@) + sp_items(ts, p.pos as int)) by {
                assert(tail_before =~= seq![items_view(items@).last()] + sp_items(
                    ts,
                    p.pos as int,
                ));
                assert(items_view(items@) =~= items_view(items_before).push(
                    items_view(items@).last(),
                ));
                assert(items_view(items_before) + tail_before =~= items_view(items@) + sp_items(
                    ts,
                    p.pos as int,
                ));
            }
            assert(sp_parse_errors(ts, 0) == p.errors@ + sp_parse_errors(ts, p.pos as int)) by {
                if p.errors@.len() == errors_before.len() {
                    assert(p.errors@ =~= errors_before);
                    assert(err_tail_before =~= sp_parse_errors(ts, p.pos as int));
                } else {
                    assert(p.errors@ =~= errors_before.push(p.errors@.last()));
                    assert(err_tail_before =~= seq![p.errors@.last()] + sp_parse_errors(
                        ts,
                        p.pos as int,
                    ));
                    assert(errors_before + err_tail_before =~= p.errors@ + sp_parse_errors(
                        ts,
                        p.pos as int,
                    ));
                }
            }
        }
    }
    proof {
        assert(sp_items(ts, p.pos as int) =~= Seq::<ItemV>::empty());
        assert(items_view(items@) + sp_items(ts, p.pos as int) =~= items_view(items@));
        assert(sp_parse_errors(ts, p.pos as int) =~= Seq::<SyntaxError>::empty());
        assert(p.errors@ + sp_parse_errors(ts, p.pos as int) =~= p.errors@);
    }
    (items, p.errors)
}

/// What `parse` hands back, witnessed by the full token stream `all` of the
/// lexer and the number `nl` of leading lexer diagnostics: the items and the
/// trailing diagnostics are exactly the reference grammar's on the non-trivia
/// tokens, and the leading diagnostics are the lexer's.
pub open spec fn parse_post(
    src: Seq<u8>,
    src_id: SourceId,
    items: Seq<Item>,
    errs: Seq<SyntaxError>,
    all: Seq<Token>,
    nl: int,
) -> bool {
    &&& lex_output_ok(src, src_id, all)
    &&& items_view(items) == sp_items(non_trivia(all), 0)
    &&& 0 <= nl <= errs.len()
    &&& errs.skip(nl) == sp_parse_errors(non_trivia(all), 0)
    &&& forall|k: int| 0 <= k < nl ==> lex_error_ok(src, src_id, #[trigger] errs[k])
}

/// `parse_post`, with the witnesses bound: some full token stream and some
/// split of the diagnostics list make the result the reference one.
pub open spec fn parse_result_ok(
    src: Seq<u8>,
    src_id: SourceId,
    items: Seq<Item>,
    errs: Seq<SyntaxError>,
) -> bool {
    exists|all: Seq<Token>, nl: int| #[trigger] parse_post(src, src_id, items, errs, all, nl)
}

/// The whole front half of the pipeline: lexes the input and parses the
/// resulting token stream. The items and the parser's diagnostics are
/// exactly the reference grammar's on the lexed tokens, preceded by the
/// lexer's own diagnostics.
pub fn parse(src: &[u8], src_id: SourceId) -> (r: (Vec<Item>, Vec<SyntaxError>))
    ensures
        parse_result_ok(src@, src_id, r.0@, r.1@),
        forall|k: int| 0 <= k < r.0@.len() ==> item_spans_ok(#[trigger] r.0@[k]),
{
    let (tokens, mut errors) = lex(src, src_id);
    let ghost all = choose|all: Seq<Token>|
        lex_output_ok(src@, src_id, all) && tokens@ == #[trigger] non_trivia(all);
    let ghost lex_part = errors@;
    let (items, parse_errors) = parse_tokens(tokens, src_id);
    let n = parse_errors.len();
    let mut k: usize = 0;
    proof {
        assert(errors@ =~= lex_part + parse_errors@.take(0));
    }
    while k < n
        invariant
            k <= n == parse_errors@.len(),
            errors@ == lex_part + parse_errors@.take(k as int),
        decreases n - k,
    {
        proof {
            assert(parse_errors@.take(k + 1) =~= parse_errors@.take(k as int).push(
                parse_errors@[k as int],
            ));
            assert(lex_part + parse_errors@.take(k + 1) =~= (lex_part + parse_errors@.take(
                k as int,
            )).push(parse_errors@[k as int]));
        }
        errors.push(parse_errors[k]);
        k = k + 1;
    }
    proof {
        assert(parse_errors@.take(n as int) =~= parse_errors@);
        let nl = lex_part.len() as int;
        assert(errors@.skip(nl) =~= parse_errors@);
        assert forall|m: int| 0 <= m < nl implies lex_error_ok(
            src@,
            src_id,
            #[trigger] errors@[m],
        ) by {
            assert(errors@[m] == lex_part[m]);
        }
        assert(parse_post(src@, src_id, items@, errors@, all, nl));
        assert(parse_result_ok(src@, src_id, items@, errors@));
    }
    (items, errors)
}

/// Post-parse validation, stated as a law: an immutable binding without an
/// initializer never survives as a statement item; only mutable or
/// initialized bindings do.
pub proof fn lemma_no_uninitialized_immutable_item(ts: Seq<Token>, i: int)
    ensures
        forall|k: int|
            0 <= k < sp_items(ts, i).len() ==> (#[trigger] sp_items(ts, i)[k] matches
                ItemV::Stmt(loc) ==> (loc.mutable || loc.init is Some)),
    decreases ts.len() - i, 8int,
{
    if i < 0 || i >= ts.len() {
    } else if ts[i].kind is Let || ts[i].kind is Var {
        match sp_local(ts, i) {
            Some((loc, j)) => {
                if i < j <= ts.len() {
                    lemma_no_uninitialized_immutable_item(ts, j);
                    let head = if !loc.mutable && loc.init is None {
                        ItemV::Error
                    } else {
                        ItemV::Stmt(loc)
                    };
                    assert forall|k: int| 0 <= k < sp_items(ts, i).len() implies (
                    #[trigger] sp_items(ts, i)[k] matches ItemV::Stmt(l2) ==> (l2.mutable
                        || l2.init is Some)) by {
                        if k > 0 {
                            assert(sp_items(ts, i)[k] == sp_items(ts, j)[k - 1]);
                        }
                    }
                }
            },
            None => {
                lemma_no_uninitialized_immutable_item(ts, i + 1);
                assert forall|k: int| 0 <= k < sp_items(ts, i).len() implies (
                #[trigger] sp_items(ts, i)[k] matches ItemV::Stmt(l2) ==> (l2.mutable
                    || l2.init is Some)) by {
                    if k > 0 {
                        assert(sp_items(ts, i)[k] == sp_items(ts, i + 1)[k - 1]);
                    }
                }
            },
        }
    } else {
        match sp_sum(ts, i) {
            Some((e, j)) => {
                if i < j <= ts.len() {
                    lemma_no_uninitialized_immutable_item(ts, j);
                    assert forall|k: int| 0 <= k < sp_items(ts, i).len() implies (
                    #[trigger] sp_items(ts, i)[k] matches ItemV::Stmt(l2) ==> (l2.mutable
                        || l2.init is Some)) by {
                        if k > 0 {
                            assert(sp_items(ts, i)[k] == sp_items(ts, j)[k - 1]);
                        }
                    }
                }
            },
            None => {
                lemma_no_uninitialized_immutable_item(ts, i + 1);
                assert forall|k: int| 0 <= k < sp_items(ts, i).len() implies (
                #[trigger] sp_items(ts, i)[k] matches ItemV::Stmt(l2) ==> (l2.mutable
                    || l2.init is Some)) by {
                    if k > 0 {
                        assert(sp_items(ts, i)[k] == sp_items(ts, i + 1)[k - 1]);
                    }
                }
            },
        }
    }
}

// --- Grammar laws -----------------------------------------------------------

/// Left associativity: parsing `a op1 b op2 c`, where `op1` and `op2` are
/// operators of the same precedence tier (both sum operators, or both product
/// operators) and `a`, `b`, `c` are literal tokens, yields
/// `Binary(op2, Binary(op1, a, b), c)`.
pub proof fn lemma_same_tier_is_left_associative(
    ts: Seq<Token>,
    la: LitV,
    lb: LitV,
    lc: LitV,
    o1: BinaryOperator,
    o2: BinaryOperator,
)
    requires
        ts.len() == 5,
        tok_lit(ts[0].kind) == Some(la),
        tok_lit(ts[2].kind) == Some(lb),
        tok_lit(ts[4].kind) == Some(lc),
        (sum_op_of(ts[1].kind) == Some(o1) && sum_op_of(ts[3].kind) == Some(o2)) || (
        product_op_of(ts[1].kind) == Some(o1) && product_op_of(ts[3].kind) == Some(o2)),
    ensures
        sp_sum(ts, 0) == Some(
            (
                ExprV::Binary(
                    o2,
                    Box::new(
                        ExprV::Binary(o1, Box::new(ExprV::Lit(la)), Box::new(ExprV::Lit(lb))),
                    ),
                    Box::new(ExprV::Lit(lc)),
                ),
                5int,
            ),
        ),
{
    let ea = ExprV::Lit(la);
    let eb = ExprV::Lit(lb);
    let ec = ExprV::Lit(lc);
    assert(sp_atom(ts, 0) == Some((ea, 1int)));
    assert(sp_atom(ts, 2) == Some((eb, 3int)));
    assert(sp_atom(ts, 4) == Some((ec, 5int)));
    assert(sp_unary(ts, 0) == Some((ea, 1int)));
    assert(sp_unary(ts, 2) == Some((eb, 3int)));
    assert(sp_unary(ts, 4) == Some((ec, 5int)));
    if sum_op_of(ts[1].kind) == Some(o1) && sum_op_of(ts[3].kind) == Some(o2) {
        assert(product_op_of(ts[1].kind) is None);
        assert(product_op_of(ts[3].kind) is None);
        assert(sp_product_rest(ts, ea, 1) == (ea, 1int));
        assert(sp_product(ts, 0) == Some((ea, 1int)));
        assert(sp_product_rest(ts, eb, 3) == (eb, 3int));
        assert(sp_product(ts, 2) == Some((eb, 3int)));
        assert(sp_product_rest(ts, ec, 5) == (ec, 5int));
        assert(sp_product(ts, 4) == Some((ec, 5int)));
        let fold1 = ExprV::Binary(o1, Box::new(ea), Box::new(eb));
        let fold2 = ExprV::Binary(o2, Box::new(fold1), Box::new(ec));
        assert(sp_sum_rest(ts, fold2, 5) == (fold2, 5int));
        assert(sp_sum_rest(ts, fold1, 3) == (fold2, 5int));
        assert(sp_sum_rest(ts, ea, 1) == (fold2, 5int));
        assert(sp_sum(ts, 0) == Some((fold2, 5int)));
    } else {
        assert(product_op_of(ts[1].kind) == Some(o1));
        assert(product_op_of(ts[3].kind) == Some(o2));
        assert(sum_op_of(ts[1].kind) is None || sum_op_of(ts[1].kind) == Some(o1));
        let fold1 = ExprV::Binary(o1, Box::new(ea), Box::new(eb));
        let fold2 = ExprV::Binary(o2, Box::new(fold1), Box::new(ec));
        assert(sp_product_rest(ts, fold2, 5) == (fold2, 5int));
        assert(sp_product_rest(ts, fold1, 3) == (fold2, 5int));
        assert(sp_product_rest(ts, ea, 1) == (fold2, 5int));
        assert(sp_product(ts, 0) == Some((fold2, 5int)));
        assert(sp_sum(ts, 0) == Some(sp_sum_rest(ts, fold2, 5)));
        assert(sp_sum_rest(ts, fold2, 5) == (fold2, 5int));
        assert(sp_sum(ts, 0) == Some((fold2, 5int)));
    }
}

/// Precedence: parsing `a + b * c` (a sum operator followed by a product
/// operator over literal tokens) binds the product tighter, yielding
/// `Binary(op1, a, Binary(op2, b, c))`.
pub proof fn lemma_product_binds_tighter_than_sum(
    ts: Seq<Token>,
    la: LitV,
    lb: LitV,
    lc: LitV,
    o1: BinaryOperator,
    o2: BinaryOperator,
)
    requires
        ts.len() == 5,
        tok_lit(ts[0].kind) == Some(la),
        tok_lit(ts[2].kind) == Some(lb),
        tok_lit(ts[4].kind) == Some(lc),
        sum_op_of(ts[1].kind) == Some(o1),
        product_op_of(ts[3].kind) == Some(o2),
        product_op_of(ts[1].kind) is None,
    ensures
        sp_sum(ts, 0) == Some(
            (
                ExprV::Binary(
                    o1,
                    Box::new(ExprV::Lit(la)),
                    Box::new(
                        ExprV::Binary(o2, Box::new(ExprV::Lit(lb)), Box::new(ExprV::Lit(lc))),
                    ),
                ),
                5int,
            ),
        ),
{
    let ea = ExprV::Lit(la);
    let eb = ExprV::Lit(lb);
    let ec = ExprV::Lit(lc);
    assert(sp_atom(ts, 0) == Some((ea, 1int)));
    assert(sp_atom(ts, 2) == Some((eb, 3int)));
    assert(sp_atom(ts, 4) == Some((ec, 5int)));
    assert(sp_unary(ts, 0) == Some((ea, 1int)));
    assert(sp_unary(ts, 2) == Some((eb, 3int)));
    assert(sp_unary(ts, 4) == Some((ec, 5int)));
    assert(sp_product_rest(ts, ea, 1) == (ea, 1int));
    assert(sp_product(ts, 0) == Some((ea, 1int)));
    let prod = ExprV::Binary(o2, Box::new(eb), Box::new(ec));
    assert(sp_product_rest(ts, prod, 5) == (prod, 5int));
    assert(sp_product_rest(ts, eb, 3) == (prod, 5int));
    assert(sp_product(ts, 2) == Some((prod, 5int)));
    let whole = ExprV::Binary(o1, Box::new(ea), Box::new(prod));
    assert(sp_sum_rest(ts, whole, 5) == (whole, 5int));
    assert(sp_sum_rest(ts, ea, 1) == (whole, 5int));
    assert(sp_sum(ts, 0) == Some((whole, 5int)));
}

} // verus!
