//! Renders a syntax tree as a fully parenthesized, whitespace-normalized
//! S-expression. This canonical form is stable and suitable for golden-file
//! testing and for structural comparison of two trees.

use crate::expr::{Accept, Expr, ExprV, Visitor};
use crate::token::Token;
use vstd::prelude::*;

verus! {

/// `(name a)`: the canonical form of a node with one operand.
pub open spec fn paren1(name: Seq<char>, a: Seq<char>) -> Seq<char> {
    "("@ + name + " "@ + a + ")"@
}

/// `(name a b)`: the canonical form of a node with two operands.
pub open spec fn paren2(name: Seq<char>, a: Seq<char>, b: Seq<char>) -> Seq<char> {
    "("@ + name + " "@ + a + " "@ + b + ")"@
}

/// The canonical text of a tree: operator nodes render as
/// `(operator-lexeme operand...)`, groupings as `(group inner)`, literals
/// verbatim with the empty string standing for `nil`.
pub open spec fn render_spec(e: ExprV) -> Seq<char>
    decreases e,
{
    match e {
        ExprV::Binary(l, op, r) => paren2(op.lexeme, render_spec(*l), render_spec(*r)),
        ExprV::Grouping(inner) => paren1("group"@, render_spec(*inner)),
        ExprV::Literal(v) => if v.len() == 0 {
            "nil"@
        } else {
            v
        },
        ExprV::Unary(op, r) => paren1(op.lexeme, render_spec(*r)),
    }
}

/// Renders one tree to its canonical text. Total and pure: the result is a
/// function of the tree alone.
fn render_expr(e: &Expr) -> (r: String)
    ensures
        r@ == render_spec(e.deep_view()),
    decreases e,
{
    match e {
        Expr::Binary(l, op, r2) => {
            let mut s = String::from_str("(");
            s.append(op.lexeme().as_str());
            s.append(" ");
            let left = render_expr(l);
            s.append(left.as_str());
            s.append(" ");
            let right = render_expr(r2);
            s.append(right.as_str());
            s.append(")");
            s
        },
        Expr::Grouping(inner) => {
            let mut s = String::from_str("(");
            s.append("group");
            s.append(" ");
            let part = render_expr(inner);
            s.append(part.as_str());
            s.append(")");
            s
        },
        Expr::Literal(v) => {
            if v.as_str().is_empty() {
                String::from_str("nil")
            } else {
                v.clone()
            }
        },
        Expr::Unary(op, r2) => {
            let mut s = String::from_str("(");
            s.append(op.lexeme().as_str());
            s.append(" ");
            let right = render_expr(r2);
            s.append(right.as_str());
            s.append(")");
            s
        },
    }
}

/// The traversal that prints a tree in canonical form.
pub struct AstPrinter;

impl AstPrinter {
    /// Builds a printer; the printer itself is stateless.
    pub fn new() -> (r: Self) {
        AstPrinter
    }

    /// The canonical text of `expr`. Printing the same tree twice yields
    /// identical text: the result is pinned to [`render_spec`].
    pub fn print(&self, expr: &Expr) -> (r: String)
        ensures
            r@ == render_spec(expr.deep_view()),
    {
        render_expr(expr)
    }
}

impl Visitor<String> for AstPrinter {
    fn visit_binary_expr(&self, left: &Expr, operator: &Token, right: &Expr) -> (r: String)
        ensures
            r@ == paren2(operator@.lexeme, render_spec(left.deep_view()), render_spec(right.deep_view())),
    {
        let mut s = String::from_str("(");
        s.append(operator.lexeme().as_str());
        s.append(" ");
        let l = render_expr(left);
        s.append(l.as_str());
        s.append(" ");
        let r = render_expr(right);
        s.append(r.as_str());
        s.append(")");
        s
    }

    fn visit_grouping_expr(&self, expression: &Expr) -> (r: String)
        ensures
            r@ == paren1("group"@, render_spec(expression.deep_view())),
    {
        let mut s = String::from_str("(");
        s.append("group");
        s.append(" ");
        let part = render_expr(expression);
        s.append(part.as_str());
        s.append(")");
        s
    }

    fn visit_literal_expr(&self, value: &str) -> (r: String)
        ensures
            r@ == render_spec(ExprV::Literal(value@)),
    {
        if value.is_empty() {
            String::from_str("nil")
        } else {
            value.to_owned()
        }
    }

    fn visit_unary_expr(&self, operator: &Token, right: &Expr) -> (r: String)
        ensures
            r@ == paren1(operator@.lexeme, render_spec(right.deep_view())),
    {
        let mut s = String::from_str("(");
        s.append(operator.lexeme().as_str());
        s.append(" ");
        let r = render_expr(right);
        s.append(r.as_str());
        s.append(")");
        s
    }
}

/// Printing is a pure function: the printed text of a tree is determined by
/// the tree alone, so printing the same tree twice yields identical text.
pub proof fn lemma_print_pure(e: ExprV, a: Seq<char>, b: Seq<char>)
    requires
        a == render_spec(e),
        b == render_spec(e),
    ensures
        a == b,
{
}

} // verus!
