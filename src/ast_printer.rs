//! A parenthesized prefix rendering of expression trees, for debugging.
use crate::double::{double_text, render};
use crate::expr::{Expr, ExprModel};
use crate::token::{Literal, LiteralModel};
use crate::value::owned;
use vstd::prelude::*;

verus! {

/// How a literal is rendered.
pub open spec fn literal_text(l: LiteralModel) -> Seq<char> {
    match l {
        LiteralModel::Number(n) => double_text(n),
        LiteralModel::Boolean(b) => if b {
            "true"@
        } else {
            "false"@
        },
        LiteralModel::Str(s) => s,
        LiteralModel::Nil => "nil"@,
    }
}

/// How an expression is rendered: binary and unary nodes as
/// `(operator operands)`, groupings as `(group inner)`.
pub open spec fn printed(e: ExprModel) -> Seq<char>
    decreases e,
{
    match e {
        ExprModel::Binary { left, operator, right } => "("@ + operator.lexeme + " "@ + printed(*left)
            + " "@ + printed(*right) + ")"@,
        ExprModel::Grouping { expression } => "(group "@ + printed(*expression) + ")"@,
        ExprModel::Unary { operator, right } => "("@ + operator.lexeme + " "@ + printed(*right)
            + ")"@,
        ExprModel::Literal { value } => literal_text(value),
        _ => "expression not implemented yet"@,
    }
}

pub struct AstPrinter;

impl AstPrinter {
    pub fn print(expr: &Expr) -> (r: String)
        ensures
            r@ == printed(expr@),
        decreases expr,
    {
        match expr {
            Expr::Binary { left, operator, right } => {
                let mut text = owned("(");
                text.append(operator.lexeme.as_str());
                text.append(" ");
                let l = Self::print(left);
                text.append(l.as_str());
                text.append(" ");
                let r = Self::print(right);
                text.append(r.as_str());
                text.append(")");
                text
            },
            Expr::Grouping { expression } => {
                let mut text = owned("(group ");
                let inner = Self::print(expression);
                text.append(inner.as_str());
                text.append(")");
                text
            },
            Expr::Unary { operator, right } => {
                let mut text = owned("(");
                text.append(operator.lexeme.as_str());
                text.append(" ");
                let r = Self::print(right);
                text.append(r.as_str());
                text.append(")");
                text
            },
            Expr::Literal { value } => Self::print_literal(value),
            _ => owned("expression not implemented yet"),
        }
    }

    pub fn print_literal(literal: &Literal) -> (r: String)
        ensures
            r@ == literal_text(literal@),
    {
        match literal {
            Literal::Number(n) => render(*n),
            Literal::Boolean(b) => if *b {
                owned("true")
            } else {
                owned("false")
            },
            Literal::String(s) => s.clone(),
            Literal::Nil => owned("nil"),
        }
    }
}

} // verus!
