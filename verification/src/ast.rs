use vstd::prelude::*;
use crate::span::Span;

verus! {

/// An expression tree node: its kind and the span of source text it covers.
#[derive(Debug)]
pub struct Expr {
    pub kind: ExprKind,
    pub span: Span,
}

/// The alternatives of an expression node. Each node exclusively owns its
/// children; the tree is acyclic with no shared or back references.
#[derive(Debug)]
pub enum ExprKind {
    Literal(LiteralKind),
    Binary(BinOp, Box<Expr>, Box<Expr>),
    Unary(UnOp, Box<Expr>),
}

/// The value a literal expression carries. A float literal keeps its source
/// digits as text: nothing in this crate reads the numeric value, and a
/// consumer of the tree converts the text.
#[derive(Debug)]
pub enum LiteralKind {
    Str(String),
    Char(char),
    Int(u128),
    Float(String),
    Bool(bool),
}

/// A binary operator.
#[derive(Clone, Copy, Debug, PartialEq, Eq, Structural)]
pub enum BinOp {
    Add,
    Sub,
    Mul,
    Div,
    Eq,
    Ne,
    Lt,
    Gt,
    Le,
    Ge,
}

/// A unary operator: recognized by the token grammar but not yet wired into
/// the expression grammar.
#[derive(Clone, Copy, Debug, PartialEq, Eq, Structural)]
pub enum UnOp {
    Not,
    Neg,
}

/// The mathematical value of an expression node: owned text appears as its
/// character sequence.
#[verifier::ext_equal]
pub struct SpecExpr {
    pub kind: SpecExprKind,
    pub span: Span,
}

/// The mathematical value of an expression node's kind.
#[verifier::ext_equal]
pub enum SpecExprKind {
    Literal(SpecLiteral),
    Binary(BinOp, Box<SpecExpr>, Box<SpecExpr>),
    Unary(UnOp, Box<SpecExpr>),
}

/// The mathematical value of a literal.
#[verifier::ext_equal]
pub enum SpecLiteral {
    Str(Seq<char>),
    Char(char),
    Int(u128),
    Float(Seq<char>),
    Bool(bool),
}

impl Expr {
    /// The mathematical value of this tree: spans kept, literal text as
    /// character sequences, children by value.
    pub open spec fn model(&self) -> SpecExpr
        decreases self,
    {
        SpecExpr {
            kind: match self.kind {
                ExprKind::Literal(l) => SpecExprKind::Literal(
                    match l {
                        LiteralKind::Str(text) => SpecLiteral::Str(text@),
                        LiteralKind::Char(c) => SpecLiteral::Char(c),
                        LiteralKind::Int(v) => SpecLiteral::Int(v),
                        LiteralKind::Float(text) => SpecLiteral::Float(text@),
                        LiteralKind::Bool(b) => SpecLiteral::Bool(b),
                    },
                ),
                ExprKind::Binary(op, l, r) => SpecExprKind::Binary(
                    op,
                    Box::new((*l).model()),
                    Box::new((*r).model()),
                ),
                ExprKind::Unary(op, e) => SpecExprKind::Unary(op, Box::new((*e).model())),
            },
            span: self.span,
        }
    }

    pub fn new(kind: ExprKind, span: Span) -> (e: Expr)
        ensures
            e.kind == kind,
            e.span == span,
    {
        Expr { kind, span }
    }
}

impl View for Expr {
    type V = SpecExpr;

    open spec fn view(&self) -> SpecExpr {
        self.model()
    }
}

} // verus!
