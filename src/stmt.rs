//! Statement trees.
use crate::error::LoxError;
use crate::expr::{Expr, ExprModel};
use crate::interpreter::{execution, Interpreter};
use crate::token::{Token, TokenModel};
use vstd::prelude::*;

verus! {

broadcast use vstd::std_specs::vec::group_vec_axioms, vstd::seq::group_seq_axioms;

/// A statement node. A `for` loop has no node of its own: the parser writes
/// it as an initializer, a `While` and an increment.
#[derive(Debug, PartialEq)]
pub enum StmtKind {
    Expression { expr: Expr },
    Print { expr: Expr },
    Var { name: Token, initializer: Option<Expr> },
    Block { statements: Vec<StmtKind> },
    If { condition: Expr, then_branch: Box<StmtKind>, else_branch: Option<Box<StmtKind>> },
    While { condition: Expr, body: Box<StmtKind> },
}

/// The mathematical form of a statement tree.
pub enum StmtModel {
    Expression { expr: ExprModel },
    Print { expr: ExprModel },
    Var { name: TokenModel, initializer: Option<ExprModel> },
    Block { statements: Seq<StmtModel> },
    If { condition: ExprModel, then_branch: Box<StmtModel>, else_branch: Option<Box<StmtModel>> },
    While { condition: ExprModel, body: Box<StmtModel> },
}

pub open spec fn stmt_view(s: StmtKind) -> StmtModel
    decreases s,
{
    match s {
        StmtKind::Expression { expr } => StmtModel::Expression { expr: expr@ },
        StmtKind::Print { expr } => StmtModel::Print { expr: expr@ },
        StmtKind::Var { name, initializer } => StmtModel::Var {
            name: name@,
            initializer: match initializer {
                Some(e) => Some(e@),
                None => None,
            },
        },
        StmtKind::Block { statements } => StmtModel::Block { statements: stmts_view(statements@) },
        StmtKind::If { condition, then_branch, else_branch } => StmtModel::If {
            condition: condition@,
            then_branch: Box::new(stmt_view(*then_branch)),
            else_branch: match else_branch {
                Some(b) => Some(Box::new(stmt_view(*b))),
                None => None,
            },
        },
        StmtKind::While { condition, body } => StmtModel::While {
            condition: condition@,
            body: Box::new(stmt_view(*body)),
        },
    }
}

pub open spec fn stmts_view(s: Seq<StmtKind>) -> Seq<StmtModel>
    decreases s,
{
    if s.len() == 0 {
        seq![]
    } else {
        stmts_view(s.drop_last()).push(stmt_view(s.last()))
    }
}

impl View for StmtKind {
    type V = StmtModel;

    open spec fn view(&self) -> StmtModel {
        stmt_view(*self)
    }
}

/// A statement, ready to run.
pub struct Stmt {
    pub stmt: StmtKind,
}

impl Stmt {
    pub fn new(stmt: StmtKind) -> (r: Stmt)
        ensures
            r.stmt == stmt,
    {
        Stmt { stmt }
    }

    /// Runs the statement on an interpreter.
    pub fn execute(&self, interpreter: &mut Interpreter) -> (r: Result<(), LoxError>)
        requires
            old(interpreter).wf(),
        ensures
            final(interpreter).wf(),
            (r, final(interpreter)@) == execution(self.stmt, old(interpreter)@),
    {
        interpreter.execute(&self.stmt)
    }
}

} // verus!
