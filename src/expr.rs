//! Expression trees.
use crate::error::LoxError;
use crate::interpreter::{eval, result_view, Interpreter};
use crate::token::{Literal, LiteralModel, Token, TokenModel};
use crate::value::Value;
use vstd::prelude::*;

verus! {

broadcast use vstd::std_specs::vec::group_vec_axioms, vstd::seq::group_seq_axioms;

/// An expression node. Each subexpression belongs to exactly one parent.
/// `Get`, `SetProperty`, `Super` and `This` are reserved for object access; the
/// parser never builds them and evaluating one is a runtime error.
#[derive(Debug, PartialEq)]
pub enum Expr {
    Assign { name: Token, value: Box<Expr> },
    Binary { left: Box<Expr>, operator: Token, right: Box<Expr> },
    Call { callee: Box<Expr>, token: Token, arguments: Vec<Expr> },
    Get { object: Box<Expr>, name: Token },
    Grouping { expression: Box<Expr> },
    Literal { value: Literal },
    Logical { left: Box<Expr>, operator: Token, right: Box<Expr> },
    SetProperty { object: Box<Expr>, name: Token, value: Box<Expr> },
    Super { keyword: Token, method: Token },
    This { keyword: Token },
    Unary { operator: Token, right: Box<Expr> },
    Variable { name: Token },
}

/// The mathematical form of an expression tree.
pub enum ExprModel {
    Assign { name: TokenModel, value: Box<ExprModel> },
    Binary { left: Box<ExprModel>, operator: TokenModel, right: Box<ExprModel> },
    Call { callee: Box<ExprModel>, token: TokenModel, arguments: Seq<ExprModel> },
    Get { object: Box<ExprModel>, name: TokenModel },
    Grouping { expression: Box<ExprModel> },
    Literal { value: LiteralModel },
    Logical { left: Box<ExprModel>, operator: TokenModel, right: Box<ExprModel> },
    SetProperty { object: Box<ExprModel>, name: TokenModel, value: Box<ExprModel> },
    Super { keyword: TokenModel, method: TokenModel },
    This { keyword: TokenModel },
    Unary { operator: TokenModel, right: Box<ExprModel> },
    Variable { name: TokenModel },
}

pub open spec fn expr_view(e: Expr) -> ExprModel
    decreases e,
{
    match e {
        Expr::Assign { name, value } => ExprModel::Assign {
            name: name@,
            value: Box::new(expr_view(*value)),
        },
        Expr::Binary { left, operator, right } => ExprModel::Binary {
            left: Box::new(expr_view(*left)),
            operator: operator@,
            right: Box::new(expr_view(*right)),
        },
        Expr::Call { callee, token, arguments } => ExprModel::Call {
            callee: Box::new(expr_view(*callee)),
            token: token@,
            arguments: exprs_view(arguments@),
        },
        Expr::Get { object, name } => ExprModel::Get { object: Box::new(expr_view(*object)), name: name@ },
        Expr::Grouping { expression } => ExprModel::Grouping {
            expression: Box::new(expr_view(*expression)),
        },
        Expr::Literal { value } => ExprModel::Literal { value: value@ },
        Expr::Logical { left, operator, right } => ExprModel::Logical {
            left: Box::new(expr_view(*left)),
            operator: operator@,
            right: Box::new(expr_view(*right)),
        },
        Expr::SetProperty { object, name, value } => ExprModel::SetProperty {
            object: Box::new(expr_view(*object)),
            name: name@,
            value: Box::new(expr_view(*value)),
        },
        Expr::Super { keyword, method } => ExprModel::Super { keyword: keyword@, method: method@ },
        Expr::This { keyword } => ExprModel::This { keyword: keyword@ },
        Expr::Unary { operator, right } => ExprModel::Unary {
            operator: operator@,
            right: Box::new(expr_view(*right)),
        },
        Expr::Variable { name } => ExprModel::Variable { name: name@ },
    }
}

pub open spec fn exprs_view(s: Seq<Expr>) -> Seq<ExprModel>
    decreases s,
{
    if s.len() == 0 {
        seq![]
    } else {
        exprs_view(s.drop_last()).push(expr_view(s.last()))
    }
}

impl View for Expr {
    type V = ExprModel;

    open spec fn view(&self) -> ExprModel {
        expr_view(*self)
    }
}

/// Evaluates an expression against a fresh global scope.
pub fn evaluate(expr: &Expr) -> (r: Result<Value, LoxError>)
    ensures
        result_view(r) == eval(*expr, seq![Map::empty()]).0,
{
    let mut interpreter = Interpreter::new();
    interpreter.evaluate(expr)
}

} // verus!
