//! The abstract syntax tree: a closed, tagged union with exactly four
//! variants, each non-leaf variant exclusively owning its sub-trees, together
//! with the double-dispatch traversal protocol ([`Visitor`] / [`Accept`]).

use crate::token::{Token, TokenV};
use vstd::prelude::*;

verus! {

/// Mathematical model of an [`Expr`]: the same four variants over token
/// models.
pub enum ExprV {
    Binary(Box<ExprV>, TokenV, Box<ExprV>),
    Grouping(Box<ExprV>),
    Literal(Seq<char>),
    Unary(TokenV, Box<ExprV>),
}

/// One node of the syntax tree. The `Literal` variant stores the display
/// text of the literal value; the empty string denotes `nil`. The parser
/// never builds a `Binary` or `Unary` node whose operator token lies outside
/// the operator set valid for that position.
#[derive(Debug, PartialEq)]
pub enum Expr {
    Binary(Box<Expr>, Token, Box<Expr>),
    Grouping(Box<Expr>),
    Literal(String),
    Unary(Token, Box<Expr>),
}

/// The model of an expression tree, token by token.
pub open spec fn expr_view(e: &Expr) -> ExprV
    decreases e,
{
    match e {
        Expr::Binary(l, op, r) => ExprV::Binary(
            Box::new(expr_view(&**l)),
            op@,
            Box::new(expr_view(&**r)),
        ),
        Expr::Grouping(inner) => ExprV::Grouping(Box::new(expr_view(&**inner))),
        Expr::Literal(v) => ExprV::Literal(v@),
        Expr::Unary(op, r) => ExprV::Unary(op@, Box::new(expr_view(&**r))),
    }
}

impl View for Expr {
    type V = ExprV;

    open spec fn view(&self) -> ExprV {
        expr_view(self)
    }
}

impl DeepView for Expr {
    type V = ExprV;

    open spec fn deep_view(&self) -> ExprV {
        expr_view(self)
    }
}

/// One handler per tree variant. A traversal (a printer, a future evaluator)
/// implements this once per result type; the tree's variant set never needs
/// to change for a new traversal. Handlers receive borrowed access to
/// sub-nodes, never ownership.
pub trait Visitor<T> {
    fn visit_binary_expr(&self, left: &Expr, operator: &Token, right: &Expr) -> T;

    fn visit_grouping_expr(&self, expression: &Expr) -> T;

    fn visit_literal_expr(&self, value: &str) -> T;

    fn visit_unary_expr(&self, operator: &Token, right: &Expr) -> T;
}

/// The dispatch half of the protocol: `accept` invokes exactly one handler
/// of the given visitor, selected solely by the node's variant tag.
pub trait Accept<T> {
    fn accept<V: Visitor<T>>(&self, visitor: &V) -> T;
}

impl Accept<String> for Expr {
    fn accept<V: Visitor<String>>(&self, visitor: &V) -> String {
        match self {
            Expr::Binary(left, operator, right) => visitor.visit_binary_expr(
                left,
                operator,
                right,
            ),
            Expr::Grouping(expression) => visitor.visit_grouping_expr(expression),
            Expr::Literal(value) => visitor.visit_literal_expr(value.as_str()),
            Expr::Unary(operator, right) => visitor.visit_unary_expr(operator, right),
        }
    }
}

} // verus!
