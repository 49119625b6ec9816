//! The abstract syntax tree: a plain, owned tree of statements and
//! expressions, each node carrying a unique id and its source span.

use vstd::prelude::*;

use crate::literal::LitV;
use crate::literal::LiteralKind;
use crate::span::SourceSpan;

verus! {

/// The id of every `Error` item.
pub const ERROR_NODE_ID: i64 = -1;

/// A unique id for a tree node, minted by a per-compilation counter.
#[derive(Debug, Clone, Copy, PartialEq, Eq, Structural)]
pub struct NodeId(pub i64);

/// A compiled unit: the list of its top-level items.
#[derive(Debug)]
pub struct Brick {
    pub items: Vec<Item>,
}

impl Brick {
    pub fn new_from_items(items: Vec<Item>) -> (r: Self)
        ensures
            r.items == items,
    {
        Brick { items }
    }
}

#[derive(Debug)]
pub struct Item {
    pub id: NodeId,
    pub kind: ItemKind,
    /// The item's start (inclusive) and end (exclusive) range, in byte
    /// offsets from the source text.
    pub span: SourceSpan,
}

impl Item {
    /// An error placeholder standing in for a construct that did not parse.
    pub fn error(span: SourceSpan, err: Vec<u8>) -> (r: Self)
        ensures
            r.id == (NodeId(ERROR_NODE_ID)),
            r.kind matches ItemKind::Error(e) && e@ == err@,
            r.span == span,
    {
        Item { id: NodeId(ERROR_NODE_ID), kind: ItemKind::Error(err), span }
    }
}

#[derive(Debug)]
pub enum ItemKind {
    Expression(Expression),
    Statement(Statement),
    Module(Module),
    /// A placeholder for a construct that did not parse, carrying a message.
    Error(Vec<u8>),
}

#[derive(Debug)]
pub struct Module {
    pub items: Vec<Item>,
}

#[derive(Debug)]
pub struct Expression {
    pub id: NodeId,
    pub kind: ExpressionKind,
    pub span: SourceSpan,
}

#[derive(Debug)]
pub enum ExpressionKind {
    Literal(LiteralKind),
    Identifier(Vec<u8>),
    Unary(UnaryOperator, Box<Expression>),
    Binary(BinaryOperator, Box<Expression>, Box<Expression>),
}

#[derive(Debug, Clone, Copy, PartialEq, Eq, Structural)]
pub enum UnaryOperator {
    Negation,
    Not,
}

#[derive(Debug, Clone, Copy, PartialEq, Eq, Structural)]
pub enum BinaryOperator {
    LogicalAnd,
    LogicalOr,
    BitwiseAnd,
    BitwiseOr,
    BitwiseXor,
    Add,
    Subtract,
    Multiply,
    Divide,
    Modulo,
    Power,
    LeftShift,
    RightShift,
    LessThan,
    GreaterThan,
    Equal,
    NotEqual,
    GreaterThanEqual,
    LessThanEqual,
}

#[derive(Debug, Clone, Copy, PartialEq, Eq, Structural)]
pub enum LiteralIntegerKind {
    Signed,
    Unsigned,
}

/// The shape of an expression with ids and spans erased: what the grammar
/// laws speak about.
pub enum ExprV {
    Lit(LitV),
    Ident(Seq<u8>),
    Unary(UnaryOperator, Box<ExprV>),
    Binary(BinaryOperator, Box<ExprV>, Box<ExprV>),
}

pub open spec fn expr_view(e: Expression) -> ExprV
    decreases e,
{
    match e.kind {
        ExpressionKind::Literal(lit) => ExprV::Lit(lit@),
        ExpressionKind::Identifier(name) => ExprV::Ident(name@),
        ExpressionKind::Unary(op, operand) => ExprV::Unary(op, Box::new(expr_view(*operand))),
        ExpressionKind::Binary(op, left, right) => ExprV::Binary(
            op,
            Box::new(expr_view(*left)),
            Box::new(expr_view(*right)),
        ),
    }
}

/// Every inner node's span is built from its operands' spans: a binary
/// node's span is the union of its operands' (start of the leftmost, end of
/// the rightmost), and a unary node's span equals its operand's.
pub open spec fn expr_spans_ok(e: Expression) -> bool
    decreases e,
{
    match e.kind {
        ExpressionKind::Literal(_) => true,
        ExpressionKind::Identifier(_) => true,
        ExpressionKind::Unary(_, operand) => e.span == operand.span && expr_spans_ok(*operand),
        ExpressionKind::Binary(_, left, right) => {
            &&& e.span.src == left.span.src
            &&& e.span.range.start == left.span.range.start
            &&& e.span.range.end == right.span.range.end
            &&& expr_spans_ok(*left)
            &&& expr_spans_ok(*right)
        },
    }
}

/// An identifier: its text and where it came from.
#[derive(Debug)]
pub struct Identifier {
    pub name: Vec<u8>,
    pub span: SourceSpan,
}

impl Identifier {
    pub fn clone_ident(&self) -> (r: Self)
        ensures
            r.name@ == self.name@,
            r.span == self.span,
    {
        Identifier { name: clone_bytes(&self.name), span: self.span }
    }
}

pub fn clone_bytes(v: &Vec<u8>) -> (r: Vec<u8>)
    ensures
        r@ == v@,
{
    let copy: Vec<u8> = v.clone();
    proof {
        assert(copy@ =~= v@);
    }
    copy
}

/// A qualified name: an ordered, non-empty sequence of identifier segments,
/// such as `brick.module.item`.
#[derive(Debug)]
pub struct Name {
    pub span: SourceSpan,
    pub segments: Vec<NameSegment>,
}

/// One segment of a qualified name.
#[derive(Debug)]
pub struct NameSegment(pub Identifier);

impl NameSegment {
    pub fn ident(&self) -> (r: Identifier)
        ensures
            r.name@ == self.0.name@,
            r.span == self.0.span,
    {
        self.0.clone_ident()
    }
}

/// The text of a normalised name: segment texts joined with `.`.
pub open spec fn joined_segments(segments: Seq<Seq<u8>>) -> Seq<u8>
    decreases segments.len(),
{
    if segments.len() == 0 {
        Seq::empty()
    } else if segments.len() == 1 {
        segments[0]
    } else {
        joined_segments(segments.drop_last()) + seq![46u8] + segments.last()
    }
}

pub open spec fn name_texts(segments: Seq<NameSegment>) -> Seq<Seq<u8>> {
    segments.map_values(|s: NameSegment| s.0.name@)
}

impl Name {
    /// Joins the segments with `.` into the single text used as a
    /// type-environment key.
    pub fn normalise(&self) -> (r: Vec<u8>)
        ensures
            r@ == joined_segments(name_texts(self.segments@)),
    {
        let mut r: Vec<u8> = Vec::new();
        let mut i: usize = 0;
        let n = self.segments.len();
        while i < n
            invariant
                i <= n == self.segments@.len(),
                r@ == joined_segments(name_texts(self.segments@).take(i as int)),
            decreases n - i,
        {
            let ghost texts = name_texts(self.segments@);
            if i > 0 {
                r.push(46);
            }
            let seg = &self.segments[i];
            let mut k: usize = 0;
            let m = seg.0.name.len();
            while k < m
                invariant
                    k <= m == seg.0.name@.len(),
                    i < n == self.segments@.len(),
                    seg == self.segments@[i as int],
                    i == 0 ==> r@ == joined_segments(name_texts(self.segments@).take(i as int))
                        + seg.0.name@.take(k as int),
                    i > 0 ==> r@ == joined_segments(name_texts(self.segments@).take(i as int))
                        + seq![46u8] + seg.0.name@.take(k as int),
                decreases m - k,
            {
                r.push(seg.0.name[k]);
                proof {
                    assert(seg.0.name@.take(k + 1) =~= seg.0.name@.take(k as int).push(
                        seg.0.name@[k as int],
                    ));
                }
                k = k + 1;
            }
            proof {
                assert(seg.0.name@.take(m as int) =~= seg.0.name@);
                let t = texts.take(i + 1);
                assert(t.drop_last() =~= texts.take(i as int));
                assert(t.last() == texts[i as int]);
                assert(texts[i as int] == seg.0.name@);
                if i == 0 {
                    assert(joined_segments(texts.take(i as int)) =~= Seq::<u8>::empty());
                    assert(r@ =~= joined_segments(t));
                } else {
                    assert(t.len() >= 2);
                    assert(joined_segments(t) == joined_segments(t.drop_last()) + seq![46u8]
                        + t.last());
                    assert(r@ =~= joined_segments(t));
                }
            }
            i = i + 1;
        }
        proof {
            assert(name_texts(self.segments@).take(n as int) =~= name_texts(self.segments@));
        }
        r
    }
}

#[derive(Debug)]
pub struct Statement {
    pub id: NodeId,
    pub kind: StatementKind,
    pub span: SourceSpan,
}

#[derive(Debug)]
pub enum StatementKind {
    Local(Local),
}

/// A binding of a name: a variable declaration such as `let x = 5` or
/// `var x: bool = false`.
#[derive(Debug)]
pub struct Local {
    pub id: NodeId,
    pub span: SourceSpan,
    pub binding_kind: BindingKind,
    pub binding_flags: BindingFlags,
    pub pattern: BindingPattern,
    /// The type annotation. `None` means no annotation was written; this is
    /// distinct from an explicit `TypeKind::Infer` placeholder.
    pub ty: Option<TypeAnno>,
}

#[derive(Debug)]
pub enum BindingKind {
    /// Declared without an initializer.
    Declared,
    /// Declared with an initializer.
    Inited(Box<Expression>),
}

#[derive(Debug)]
pub enum BindingPattern {
    Identifier(Identifier),
}

/// Settings for a declared local.
#[derive(Debug, Clone, Copy, PartialEq, Eq, Structural)]
pub struct BindingFlags {
    /// The local was declared as mutable, with the `var` keyword.
    pub mutable: bool,
}

/// A type annotation in the syntax tree.
#[derive(Debug)]
pub struct TypeAnno {
    pub id: NodeId,
    pub kind: TypeKind,
    pub span: SourceSpan,
}

#[derive(Debug)]
pub enum TypeKind {
    /// The unit type, written `()`.
    Unit,
    /// The explicit placeholder for inference. This is distinct from not
    /// writing an annotation at all, though both trigger inference.
    Infer,
    /// The type referred to by the contained qualified name.
    Named(Name),
}

} // verus!
