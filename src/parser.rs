//! The recursive-descent parser: tokens to statement trees, recovering from
//! errors at statement boundaries.
use crate::error::{error_views, parse_error_at, ErrorModel, LoxError, Problem, Site, SiteModel};
use crate::expr::{exprs_view, Expr, ExprModel};
use crate::stmt::{stmts_view, StmtKind, StmtModel};
use crate::scanner::token_views;
use crate::token::{Literal, LiteralModel, Token, TokenModel, TokenType};
use vstd::prelude::*;

verus! {

broadcast use
    crate::error::lemma_errors_assoc,
    crate::error::lemma_errors_empty,
;

/// An expression and the position after it, or an error and the position of
/// the token where it was found; beside it, the errors reported on the way
/// that did not stop parsing, in order.
pub type ExprParse = (Result<(ExprModel, int), (ErrorModel, int)>, Seq<ErrorModel>);

/// The kind of the token at `p`; past the end, the end of input.
pub open spec fn kind_at(toks: Seq<TokenModel>, p: int) -> TokenType {
    if 0 <= p < toks.len() {
        toks[p].token_type
    } else {
        TokenType::Eof
    }
}

/// The error reported at position `p`.
pub open spec fn failure_at(toks: Seq<TokenModel>, p: int, problem: Problem) -> (ErrorModel, int) {
    (
        if 0 <= p < toks.len() {
            parse_error_at(toks[p], problem)
        } else {
            ErrorModel::ParseError {
                line: if toks.len() > 0 {
                    toks.last().line
                } else {
                    0
                },
                site: SiteModel::End,
                problem,
            }
        },
        p,
    )
}

/// The operators of a binary precedence level, tightest first: factor,
/// term, comparison, equality, `and`, `or`.
pub open spec fn level_matches(level: nat, kind: TokenType) -> bool {
    if level == 0 {
        kind == TokenType::Slash || kind == TokenType::Star
    } else if level == 1 {
        kind == TokenType::Minus || kind == TokenType::Plus
    } else if level == 2 {
        kind == TokenType::Greater || kind == TokenType::GreaterEqual || kind == TokenType::Less
            || kind == TokenType::LessEqual
    } else if level == 3 {
        kind == TokenType::BangEqual || kind == TokenType::EqualEqual
    } else if level == 4 {
        kind == TokenType::And
    } else {
        kind == TokenType::Or
    }
}

/// The node that joins two operands at a level: logical for `and` and `or`.
pub open spec fn combine(level: nat, left: ExprModel, operator: TokenModel, right: ExprModel) -> ExprModel {
    if level >= 4 {
        ExprModel::Logical { left: Box::new(left), operator, right: Box::new(right) }
    } else {
        ExprModel::Binary { left: Box::new(left), operator, right: Box::new(right) }
    }
}

pub const TOP_LEVEL: u64 = 5;

pub const MAX_ARGUMENTS: usize = 255;

/// `expression -> assignment`
pub open spec fn expression(toks: Seq<TokenModel>, p: int) -> ExprParse
    decreases toks.len() - p, 25int,
{
    assignment(toks, p)
}

/// `assignment -> IDENTIFIER "=" assignment | logic_or`; the target must be
/// a bare variable, else the error is at the `=`.
pub open spec fn assignment(toks: Seq<TokenModel>, p: int) -> ExprParse
    decreases toks.len() - p, 24int,
{
    let (r, e1) = binary(toks, TOP_LEVEL as nat, p);
    match r {
        Err(f) => (Err(f), e1),
        Ok((target, q)) => if kind_at(toks, q) == TokenType::Equal && p <= q {
            let (v, e2) = assignment(toks, q + 1);
            (
                match v {
                    Err(f) => Err(f),
                    Ok((value, q2)) => match target {
                        ExprModel::Variable { name } => Ok(
                            (ExprModel::Assign { name, value: Box::new(value) }, q2),
                        ),
                        _ => Err(failure_at(toks, q, Problem::InvalidAssignmentTarget)),
                    },
                },
                e1 + e2,
            )
        } else {
            (Ok((target, q)), e1)
        },
    }
}

/// The operand of a level: the next tighter level, or a unary expression.
pub open spec fn operand(toks: Seq<TokenModel>, level: nat, p: int) -> ExprParse
    decreases toks.len() - p, 3 * level + 7,
{
    if level == 0 {
        unary(toks, p)
    } else {
        binary(toks, (level - 1) as nat, p)
    }
}

/// `level -> operand (OP operand)*`, left-associative.
pub open spec fn binary(toks: Seq<TokenModel>, level: nat, p: int) -> ExprParse
    decreases toks.len() - p, 3 * level + 8,
{
    let (r, e1) = operand(toks, level, p);
    match r {
        Err(f) => (Err(f), e1),
        Ok((e, q)) => if p <= q <= toks.len() {
            let (r2, e2) = binary_rest(toks, level, e, q);
            (r2, e1 + e2)
        } else {
            (Ok((e, q)), e1)
        },
    }
}

/// The `(OP operand)*` tail of a level, with the operands so far joined
/// into `left`.
pub open spec fn binary_rest(toks: Seq<TokenModel>, level: nat, left: ExprModel, q: int) -> ExprParse
    decreases toks.len() - q, 3 * level + 6,
{
    if level_matches(level, kind_at(toks, q)) {
        let (r, e1) = operand(toks, level, q + 1);
        match r {
            Err(f) => (Err(f), e1),
            Ok((right, q2)) => {
                let e = combine(level, left, toks[q], right);
                if q < q2 <= toks.len() {
                    let (r2, e2) = binary_rest(toks, level, e, q2);
                    (r2, e1 + e2)
                } else {
                    (Ok((e, q2)), e1)
                }
            },
        }
    } else {
        (Ok((left, q)), seq![])
    }
}

/// `unary -> ("!" | "-") unary | call`
pub open spec fn unary(toks: Seq<TokenModel>, p: int) -> ExprParse
    decreases toks.len() - p, 4int,
{
    let k = kind_at(toks, p);
    if k == TokenType::Bang || k == TokenType::Minus {
        let (r, e1) = unary(toks, p + 1);
        (
            match r {
                Err(f) => Err(f),
                Ok((right, q)) => Ok(
                    (ExprModel::Unary { operator: toks[p], right: Box::new(right) }, q),
                ),
            },
            e1,
        )
    } else {
        call(toks, p)
    }
}

/// `call -> primary ("(" arguments? ")")*`
pub open spec fn call(toks: Seq<TokenModel>, p: int) -> ExprParse
    decreases toks.len() - p, 3int,
{
    let (r, e1) = primary(toks, p);
    match r {
        Err(f) => (Err(f), e1),
        Ok((e, q)) => if p <= q <= toks.len() {
            let (r2, e2) = call_rest(toks, e, q);
            (r2, e1 + e2)
        } else {
            (Ok((e, q)), e1)
        },
    }
}

/// The argument lists that follow a callee.
pub open spec fn call_rest(toks: Seq<TokenModel>, callee: ExprModel, q: int) -> ExprParse
    decreases toks.len() - q, 2int,
{
    if kind_at(toks, q) == TokenType::LeftParen {
        let (args, e1) = if kind_at(toks, q + 1) == TokenType::RightParen {
            (Ok((seq![], q + 1)), seq![])
        } else {
            argument_list(toks, q + 1, seq![])
        };
        match args {
            Err(f) => (Err(f), e1),
            Ok((arguments, rp)) => {
                let e = ExprModel::Call { callee: Box::new(callee), token: toks[rp], arguments };
                if q < rp < toks.len() {
                    let (r2, e2) = call_rest(toks, e, rp + 1);
                    (r2, e1 + e2)
                } else {
                    (Ok((e, rp)), e1)
                }
            },
        }
    } else {
        (Ok((callee, q)), seq![])
    }
}

/// `arguments -> expression ("," expression)*`, followed by `)`: the
/// arguments after `args` and the position of the `)`. An argument beyond
/// the 255th is reported at the token that starts it, and parsing goes on.
pub open spec fn argument_list(toks: Seq<TokenModel>, p: int, args: Seq<ExprModel>) -> (Result<
    (Seq<ExprModel>, int),
    (ErrorModel, int),
>, Seq<ErrorModel>)
    decreases toks.len() - p, 26int,
{
    let cap: Seq<ErrorModel> = if args.len() >= MAX_ARGUMENTS {
        seq![failure_at(toks, p, Problem::TooManyArguments).0]
    } else {
        seq![]
    };
    let (r, e1) = expression(toks, p);
    match r {
        Err(f) => (Err(f), cap + e1),
        Ok((a, q)) => {
            let more = args.push(a);
            if kind_at(toks, q) == TokenType::Comma && p <= q {
                let (r2, e2) = argument_list(toks, q + 1, more);
                (r2, cap + e1 + e2)
            } else if kind_at(toks, q) == TokenType::RightParen {
                (Ok((more, q)), cap + e1)
            } else {
                (Err(failure_at(toks, q, Problem::ExpectRightParenAfterArguments)), cap + e1)
            }
        },
    }
}

/// The value of a literal token; `nil` where it carries none.
pub open spec fn literal_value(t: TokenModel) -> LiteralModel {
    match t.literal {
        Some(l) => l,
        None => LiteralModel::Nil,
    }
}

/// `primary -> NUMBER | STRING | "true" | "false" | "nil" | IDENTIFIER | "("
/// expression ")"`
pub open spec fn primary(toks: Seq<TokenModel>, p: int) -> ExprParse
    decreases toks.len() - p, 1int,
{
    let k = kind_at(toks, p);
    if k == TokenType::False {
        (Ok((ExprModel::Literal { value: LiteralModel::Boolean(false) }, p + 1)), seq![])
    } else if k == TokenType::True {
        (Ok((ExprModel::Literal { value: LiteralModel::Boolean(true) }, p + 1)), seq![])
    } else if k == TokenType::Nil {
        (Ok((ExprModel::Literal { value: LiteralModel::Nil }, p + 1)), seq![])
    } else if k == TokenType::Number || k == TokenType::String {
        (Ok((ExprModel::Literal { value: literal_value(toks[p]) }, p + 1)), seq![])
    } else if k == TokenType::Identifier {
        (Ok((ExprModel::Variable { name: toks[p] }, p + 1)), seq![])
    } else if k == TokenType::LeftParen {
        let (r, e1) = expression(toks, p + 1);
        (
            match r {
                Err(f) => Err(f),
                Ok((e, q)) => if kind_at(toks, q) == TokenType::RightParen {
                    Ok((ExprModel::Grouping { expression: Box::new(e) }, q + 1))
                } else {
                    Err(failure_at(toks, q, Problem::ExpectRightParenAfterExpression))
                },
            },
            e1,
        )
    } else {
        (Err(failure_at(toks, p, Problem::ExpectExpression)), seq![])
    }
}

/// A statement and the position after it, or an error and its position;
/// beside it, the errors recovered from inside nested blocks, in order.
pub type StmtParse = (Result<(StmtModel, int), (ErrorModel, int)>, Seq<ErrorModel>);

/// The keywords that begin a statement or declaration.
pub open spec fn starts_statement(k: TokenType) -> bool {
    k == TokenType::Class || k == TokenType::Fun || k == TokenType::Var || k == TokenType::For
        || k == TokenType::If || k == TokenType::While || k == TokenType::Print || k
        == TokenType::Return
}

/// Where parsing resumes after an error at `p`: past that token, then just
/// after a `;`, or at a token that begins a statement, or at the end.
pub open spec fn synchronize(toks: Seq<TokenModel>, p: int) -> int {
    if kind_at(toks, p) == TokenType::Eof {
        p
    } else {
        sync_from(toks, p + 1)
    }
}

pub open spec fn sync_from(toks: Seq<TokenModel>, q: int) -> int
    decreases toks.len() - q,
{
    if kind_at(toks, q) == TokenType::Eof || kind_at(toks, q - 1) == TokenType::Semicolon
        || starts_statement(kind_at(toks, q)) {
        q
    } else {
        sync_from(toks, q + 1)
    }
}

/// `expression ";"`, as an expression statement or a print statement.
pub open spec fn expression_statement(toks: Seq<TokenModel>, p: int, print: bool) -> StmtParse {
    let (r, e1) = expression(toks, p);
    (
        match r {
            Err(f) => Err(f),
            Ok((e, q)) => if kind_at(toks, q) == TokenType::Semicolon {
                Ok(
                    (
                        if print {
                            StmtModel::Print { expr: e }
                        } else {
                            StmtModel::Expression { expr: e }
                        },
                        q + 1,
                    ),
                )
            } else {
                Err(
                    failure_at(
                        toks,
                        q,
                        if print {
                            Problem::ExpectSemicolonAfterValue
                        } else {
                            Problem::ExpectSemicolonAfterExpression
                        },
                    ),
                )
            },
        },
        e1,
    )
}

/// `IDENTIFIER ("=" expression)? ";"`, after the `var`.
pub open spec fn var_declaration(toks: Seq<TokenModel>, p: int) -> StmtParse {
    if kind_at(toks, p) != TokenType::Identifier {
        (Err(failure_at(toks, p, Problem::ExpectVariableName)), seq![])
    } else {
        let (init, e1): (Result<(Option<ExprModel>, int), (ErrorModel, int)>, Seq<ErrorModel>) =
            if kind_at(toks, p + 1) == TokenType::Equal {
            let (r, e1) = expression(toks, p + 2);
            (
                match r {
                    Err(f) => Err(f),
                    Ok((e, q)) => Ok((Some(e), q)),
                },
                e1,
            )
        } else {
            (Ok((None, p + 1)), seq![])
        };
        (
            match init {
                Err(f) => Err(f),
                Ok((initializer, q)) => if kind_at(toks, q) == TokenType::Semicolon {
                    Ok((StmtModel::Var { name: toks[p], initializer }, q + 1))
                } else {
                    Err(failure_at(toks, q, Problem::ExpectSemicolonAfterVariable))
                },
            },
            e1,
        )
    }
}

/// A declaration, recovering from an error: the statement (none after an
/// error), where parsing goes on, and the errors met, this one last.
pub open spec fn declaration(toks: Seq<TokenModel>, p: int) -> (Option<StmtModel>, int, Seq<ErrorModel>)
    decreases toks.len() - p, 3int,
{
    let (r, errs) = if kind_at(toks, p) == TokenType::Var {
        var_declaration(toks, p + 1)
    } else {
        statement(toks, p)
    };
    match r {
        Ok((s, q)) => (Some(s), q, errs),
        Err((e, q)) => (None, synchronize(toks, q), errs.push(e)),
    }
}

/// `statement -> exprStmt | printStmt | block | ifStmt | whileStmt | forStmt`
pub open spec fn statement(toks: Seq<TokenModel>, p: int) -> StmtParse
    decreases toks.len() - p, 2int,
{
    let k = kind_at(toks, p);
    if k == TokenType::For {
        for_statement(toks, p + 1)
    } else if k == TokenType::If {
        if_statement(toks, p + 1)
    } else if k == TokenType::Print {
        expression_statement(toks, p + 1, true)
    } else if k == TokenType::While {
        while_statement(toks, p + 1)
    } else if k == TokenType::LeftBrace {
        let (r, errs) = block(toks, p + 1, seq![]);
        match r {
            Ok((statements, q)) => (Ok((StmtModel::Block { statements }, q)), errs),
            Err(f) => (Err(f), errs),
        }
    } else {
        expression_statement(toks, p, false)
    }
}

/// `declaration* "}"`, after the `{`: the statements after `acc`, and the
/// position after the `}`.
pub open spec fn block(toks: Seq<TokenModel>, p: int, acc: Seq<StmtModel>) -> (Result<
    (Seq<StmtModel>, int),
    (ErrorModel, int),
>, Seq<ErrorModel>)
    decreases toks.len() - p, 4int,
{
    let k = kind_at(toks, p);
    if k == TokenType::RightBrace {
        (Ok((acc, p + 1)), seq![])
    } else if k == TokenType::Eof {
        (Err(failure_at(toks, p, Problem::ExpectRightBraceAfterBlock)), seq![])
    } else {
        let (d, q, e1) = declaration(toks, p);
        let more = match d {
            Some(s) => acc.push(s),
            None => acc,
        };
        if p < q <= toks.len() {
            let (r, e2) = block(toks, q, more);
            (r, e1 + e2)
        } else {
            (Ok((more, q)), e1)
        }
    }
}

/// `"(" expression ")"` after a keyword: the condition and the position
/// after the `)`.
pub open spec fn condition(toks: Seq<TokenModel>, p: int, open: Problem, close: Problem) -> ExprParse {
    if kind_at(toks, p) != TokenType::LeftParen {
        (Err(failure_at(toks, p, open)), seq![])
    } else {
        let (r, e1) = expression(toks, p + 1);
        (
            match r {
                Err(f) => Err(f),
                Ok((c, q)) => if kind_at(toks, q) == TokenType::RightParen {
                    Ok((c, q + 1))
                } else {
                    Err(failure_at(toks, q, close))
                },
            },
            e1,
        )
    }
}

/// `"(" expression ")" statement ("else" statement)?`, after the `if`.
pub open spec fn if_statement(toks: Seq<TokenModel>, p: int) -> StmtParse
    decreases toks.len() - p, 1int,
{
    let (cr, e0) = condition(
        toks,
        p,
        Problem::ExpectLeftParenAfterIf,
        Problem::ExpectRightParenAfterIfCondition,
    );
    match cr {
        Err(f) => (Err(f), e0),
        Ok((c, q)) => if p < q <= toks.len() {
            let (t, e1) = statement(toks, q);
            match t {
                Err(f) => (Err(f), e0 + e1),
                Ok((then_branch, q2)) => if kind_at(toks, q2) == TokenType::Else && q < q2 {
                    let (el, e2) = statement(toks, q2 + 1);
                    (
                        match el {
                            Err(f) => Err(f),
                            Ok((else_branch, q3)) => Ok(
                                (
                                    StmtModel::If {
                                        condition: c,
                                        then_branch: Box::new(then_branch),
                                        else_branch: Some(Box::new(else_branch)),
                                    },
                                    q3,
                                ),
                            ),
                        },
                        e0 + e1 + e2,
                    )
                } else {
                    (
                        Ok(
                            (
                                StmtModel::If {
                                    condition: c,
                                    then_branch: Box::new(then_branch),
                                    else_branch: None,
                                },
                                q2,
                            ),
                        ),
                        e0 + e1,
                    )
                },
            }
        } else {
            // Never taken: the condition's parentheses were consumed.
            (Err(failure_at(toks, q, Problem::ExpectExpression)), e0)
        },
    }
}

/// `"(" expression ")" statement`, after the `while`.
pub open spec fn while_statement(toks: Seq<TokenModel>, p: int) -> StmtParse
    decreases toks.len() - p, 1int,
{
    let (cr, e0) = condition(
        toks,
        p,
        Problem::ExpectLeftParenAfterWhile,
        Problem::ExpectRightParenAfterCondition,
    );
    match cr {
        Err(f) => (Err(f), e0),
        Ok((c, q)) => if p < q <= toks.len() {
            let (b, e1) = statement(toks, q);
            (
                match b {
                    Err(f) => Err(f),
                    Ok((body, q2)) => Ok(
                        (StmtModel::While { condition: c, body: Box::new(body) }, q2),
                    ),
                },
                e0 + e1,
            )
        } else {
            // Never taken: the condition's parentheses were consumed.
            (Err(failure_at(toks, q, Problem::ExpectExpression)), e0)
        },
    }
}

/// The clauses of a `for` after its `(`: the initializer, the condition and
/// the increment, and the position after the `)`.
pub open spec fn for_clauses(toks: Seq<TokenModel>, p: int) -> (Result<
    (Option<StmtModel>, Option<ExprModel>, Option<ExprModel>, int),
    (ErrorModel, int),
>, Seq<ErrorModel>) {
    let (init, e0): StmtParse = if kind_at(toks, p) == TokenType::Semicolon {
        (
            Ok(
                (
                    StmtModel::Expression { expr: ExprModel::Literal { value: LiteralModel::Nil } },
                    p + 1,
                ),
            ),
            seq![],
        )
    } else if kind_at(toks, p) == TokenType::Var {
        var_declaration(toks, p + 1)
    } else {
        expression_statement(toks, p, false)
    };
    match init {
        Err(f) => (Err(f), e0),
        Ok((init_stmt, q)) => {
            let initializer = if kind_at(toks, p) == TokenType::Semicolon {
                None
            } else {
                Some(init_stmt)
            };
            let (cond, e1): (Result<(Option<ExprModel>, int), (ErrorModel, int)>, Seq<ErrorModel>) =
                if kind_at(toks, q) != TokenType::Semicolon {
                let (r, e1) = expression(toks, q);
                (
                    match r {
                        Err(f) => Err(f),
                        Ok((c, q1)) => Ok((Some(c), q1)),
                    },
                    e1,
                )
            } else {
                (Ok((None, q)), seq![])
            };
            match cond {
                Err(f) => (Err(f), e0 + e1),
                Ok((condition, q1)) => if kind_at(toks, q1) != TokenType::Semicolon {
                    (
                        Err(failure_at(toks, q1, Problem::ExpectSemicolonAfterLoopCondition)),
                        e0 + e1,
                    )
                } else {
                    let (incr, e2): (
                        Result<(Option<ExprModel>, int), (ErrorModel, int)>,
                        Seq<ErrorModel>,
                    ) = if kind_at(toks, q1 + 1) != TokenType::RightParen {
                        let (r, e2) = expression(toks, q1 + 1);
                        (
                            match r {
                                Err(f) => Err(f),
                                Ok((i, q2)) => Ok((Some(i), q2)),
                            },
                            e2,
                        )
                    } else {
                        (Ok((None, q1 + 1)), seq![])
                    };
                    (
                        match incr {
                            Err(f) => Err(f),
                            Ok((increment, q2)) => if kind_at(toks, q2) != TokenType::RightParen {
                                Err(failure_at(toks, q2, Problem::ExpectRightParenAfterForClauses))
                            } else {
                                Ok((initializer, condition, increment, q2 + 1))
                            },
                        },
                        e0 + e1 + e2,
                    )
                },
            }
        },
    }
}

/// What a `for` loop means: the initializer, then a `while` over the
/// condition (`true` when left out) whose body is followed by the
/// increment.
pub open spec fn desugared_for(
    initializer: Option<StmtModel>,
    condition: Option<ExprModel>,
    increment: Option<ExprModel>,
    body: StmtModel,
) -> StmtModel {
    let looped = match increment {
        Some(i) => StmtModel::Block { statements: seq![body, StmtModel::Expression { expr: i }] },
        None => body,
    };
    let cond = match condition {
        Some(c) => c,
        None => ExprModel::Literal { value: LiteralModel::Boolean(true) },
    };
    let w = StmtModel::While { condition: cond, body: Box::new(looped) };
    match initializer {
        Some(s) => StmtModel::Block { statements: seq![s, w] },
        None => w,
    }
}

/// `"(" (varDecl | exprStmt | ";") expression? ";" expression? ")"
/// statement`, after the `for`, written as a `while`.
pub open spec fn for_statement(toks: Seq<TokenModel>, p: int) -> StmtParse
    decreases toks.len() - p, 1int,
{
    if kind_at(toks, p) != TokenType::LeftParen {
        (Err(failure_at(toks, p, Problem::ExpectLeftParenAfterFor)), seq![])
    } else {
        let (clauses, e0) = for_clauses(toks, p + 1);
        let (r, e1) = for_body(toks, p, clauses);
        (r, e0 + e1)
    }
}

/// The body that follows the clauses of a `for`, and the loop they make.
pub open spec fn for_body(
    toks: Seq<TokenModel>,
    p: int,
    clauses: Result<
        (Option<StmtModel>, Option<ExprModel>, Option<ExprModel>, int),
        (ErrorModel, int),
    >,
) -> StmtParse
    decreases toks.len() - p, 0int,
{
    match clauses {
        Err(f) => (Err(f), seq![]),
        Ok((initializer, condition, increment, q)) => if p < q <= toks.len() {
            let (b, e1) = statement(toks, q);
            (
                match b {
                    Err(f) => Err(f),
                    Ok((body, q2)) => Ok(
                        (desugared_for(initializer, condition, increment, body), q2),
                    ),
                },
                e1,
            )
        } else {
            // Never taken: the clauses end after a `)`.
            (Err(failure_at(toks, q, Problem::ExpectRightParenAfterForClauses)), seq![])
        },
    }
}

/// The statements of a program from `p` on, and its parse errors in order.
pub open spec fn program_from(toks: Seq<TokenModel>, p: int) -> (Seq<StmtModel>, Seq<ErrorModel>)
    decreases toks.len() - p,
{
    if kind_at(toks, p) == TokenType::Eof {
        (seq![], seq![])
    } else {
        let (d, q, e1) = declaration(toks, p);
        let here = match d {
            Some(s) => seq![s],
            None => seq![],
        };
        if p < q <= toks.len() {
            let (rest, e2) = program_from(toks, q);
            (here + rest, e1 + e2)
        } else {
            (here, e1)
        }
    }
}

/// Parsing is a function of the token sequence: the same tokens give the same
/// statements and the same errors, however often they are parsed.
pub proof fn lemma_parse_deterministic(a: Seq<TokenModel>, b: Seq<TokenModel>)
    requires
        a == b,
    ensures
        program_from(a, 0) == program_from(b, 0),
{
}

pub open spec fn outcome(r: Result<(Expr, usize), (LoxError, usize)>) -> Result<
    (ExprModel, int),
    (ErrorModel, int),
> {
    match r {
        Ok((e, q)) => Ok((e@, q as int)),
        Err((err, q)) => Err((err@, q as int)),
    }
}

/// Positions stay within the tokens, and a success does not move back.
pub open spec fn bounded<T>(r: Result<(T, usize), (LoxError, usize)>, p: int, len: int) -> bool {
    match r {
        Ok((_, q)) => p <= q <= len,
        Err((_, q)) => p <= q <= len,
    }
}

proof fn lemma_exprs_view_push(s: Seq<Expr>, e: Expr)
    ensures
        exprs_view(s.push(e)) == exprs_view(s).push(e@),
        exprs_view(s.push(e)).len() == s.len() + 1,
{
    lemma_exprs_view_len(s);
    assert(s.push(e).drop_last() =~= s);
}

proof fn lemma_exprs_view_len(s: Seq<Expr>)
    ensures
        exprs_view(s).len() == s.len(),
    decreases s.len(),
{
    if s.len() > 0 {
        lemma_exprs_view_len(s.drop_last());
    }
}

fn kind(tokens: &Vec<Token>, p: usize) -> (k: TokenType)
    ensures
        k == kind_at(token_views(tokens@), p as int),
        k != TokenType::Eof ==> (p as int) < token_views(tokens@).len(),
        token_views(tokens@).len() <= usize::MAX,
{
    if p < tokens.len() {
        tokens[p].token_type
    } else {
        TokenType::Eof
    }
}

fn fail(tokens: &Vec<Token>, p: usize, problem: Problem) -> (r: (LoxError, usize))
    ensures
        (r.0@, r.1 as int) == failure_at(token_views(tokens@), p as int, problem),
{
    if p < tokens.len() {
        (LoxError::lox_error_at_line(&tokens[p], problem), p)
    } else {
        let line = if tokens.len() > 0 {
            tokens[tokens.len() - 1].line
        } else {
            0
        };
        (LoxError::ParseError { line, site: Site::End, problem }, p)
    }
}

fn level_matches_kind(level: u64, kind: TokenType) -> (r: bool)
    ensures
        r == level_matches(level as nat, kind),
{
    match kind {
        TokenType::Slash | TokenType::Star => level == 0,
        TokenType::Minus | TokenType::Plus => level == 1,
        TokenType::Greater | TokenType::GreaterEqual | TokenType::Less | TokenType::LessEqual => level
            == 2,
        TokenType::BangEqual | TokenType::EqualEqual => level == 3,
        TokenType::And => level == 4,
        TokenType::Or => level >= 5,
        _ => false,
    }
}

fn expression_at(tokens: &Vec<Token>, p: usize, errors: &mut Vec<LoxError>) -> (r: Result<(Expr, usize), (LoxError, usize)>)
    requires
        p <= tokens@.len(),
    ensures
        outcome(r) == expression(token_views(tokens@), p as int).0,
        error_views(final(errors)@) == error_views(old(errors)@) + expression(token_views(tokens@), p as int).1,
        bounded(r, p as int, tokens@.len() as int),
        r matches Ok((_, q)) ==> q > p,
    decreases tokens@.len() - p, 25int,
{
    assignment_at(tokens, p, errors)
}

#[verifier::rlimit(30)]
fn assignment_at(tokens: &Vec<Token>, p: usize, errors: &mut Vec<LoxError>) -> (r: Result<(Expr, usize), (LoxError, usize)>)
    requires
        p <= tokens@.len(),
    ensures
        outcome(r) == assignment(token_views(tokens@), p as int).0,
        error_views(final(errors)@) == error_views(old(errors)@) + assignment(token_views(tokens@), p as int).1,
        bounded(r, p as int, tokens@.len() as int),
        r matches Ok((_, q)) ==> q > p,
    decreases tokens@.len() - p, 24int,
{
    let (target, q) = binary_at(tokens, TOP_LEVEL, p, errors)?;
    if kind(tokens, q) == TokenType::Equal {
        let (value, q2) = assignment_at(tokens, q + 1, errors)?;
        match target {
            Expr::Variable { name } => Ok((Expr::Assign { name, value: Box::new(value) }, q2)),
            _ => Err(fail(tokens, q, Problem::InvalidAssignmentTarget)),
        }
    } else {
        Ok((target, q))
    }
}

fn operand_at(tokens: &Vec<Token>, level: u64, p: usize, errors: &mut Vec<LoxError>) -> (r: Result<(Expr, usize), (LoxError, usize)>)
    requires
        p <= tokens@.len(),
        level <= TOP_LEVEL,
    ensures
        outcome(r) == operand(token_views(tokens@), level as nat, p as int).0,
        error_views(final(errors)@) == error_views(old(errors)@) + operand(token_views(tokens@), level as nat, p as int).1,
        bounded(r, p as int, tokens@.len() as int),
        r matches Ok((_, q)) ==> q > p,
    decreases tokens@.len() - p, 3 * level + 7,
{
    if level == 0 {
        unary_at(tokens, p, errors)
    } else {
        binary_at(tokens, level - 1, p, errors)
    }
}

/// One binary precedence level (see `level_matches`).
fn binary_at(tokens: &Vec<Token>, level: u64, p: usize, errors: &mut Vec<LoxError>) -> (r: Result<(Expr, usize), (LoxError, usize)>)
    requires
        p <= tokens@.len(),
        level <= TOP_LEVEL,
    ensures
        outcome(r) == binary(token_views(tokens@), level as nat, p as int).0,
        error_views(final(errors)@) == error_views(old(errors)@) + binary(token_views(tokens@), level as nat, p as int).1,
        bounded(r, p as int, tokens@.len() as int),
        r matches Ok((_, q)) ==> q > p,
    decreases tokens@.len() - p, 3 * level + 8,
{
    let (e, q) = operand_at(tokens, level, p, errors)?;
    binary_rest_at(tokens, level, e, q, errors)
}

#[verifier::rlimit(30)]
fn binary_rest_at(
    tokens: &Vec<Token>,
    level: u64,
    left: Expr,
    q: usize,
    errors: &mut Vec<LoxError>,
) -> (r: Result<(Expr, usize), (LoxError, usize)>)
    requires
        q <= tokens@.len(),
        level <= TOP_LEVEL,
    ensures
        outcome(r) == binary_rest(token_views(tokens@), level as nat, left@, q as int).0,
        error_views(final(errors)@) == error_views(old(errors)@) + binary_rest(token_views(tokens@), level as nat, left@, q as int).1,
        bounded(r, q as int, tokens@.len() as int),
    decreases tokens@.len() - q, 3 * level + 6,
{
    if level_matches_kind(level, kind(tokens, q)) {
        let operator = tokens[q].duplicate();
        let (right, q2) = operand_at(tokens, level, q + 1, errors)?;
        let e = if level >= 4 {
            Expr::Logical { left: Box::new(left), operator, right: Box::new(right) }
        } else {
            Expr::Binary { left: Box::new(left), operator, right: Box::new(right) }
        };
        binary_rest_at(tokens, level, e, q2, errors)
    } else {
        Ok((left, q))
    }
}

fn unary_at(tokens: &Vec<Token>, p: usize, errors: &mut Vec<LoxError>) -> (r: Result<(Expr, usize), (LoxError, usize)>)
    requires
        p <= tokens@.len(),
    ensures
        outcome(r) == unary(token_views(tokens@), p as int).0,
        error_views(final(errors)@) == error_views(old(errors)@) + unary(token_views(tokens@), p as int).1,
        bounded(r, p as int, tokens@.len() as int),
        r matches Ok((_, q)) ==> q > p,
    decreases tokens@.len() - p, 4int,
{
    let k = kind(tokens, p);
    if k == TokenType::Bang || k == TokenType::Minus {
        let operator = tokens[p].duplicate();
        let (right, q) = unary_at(tokens, p + 1, errors)?;
        Ok((Expr::Unary { operator, right: Box::new(right) }, q))
    } else {
        call_at(tokens, p, errors)
    }
}

fn call_at(tokens: &Vec<Token>, p: usize, errors: &mut Vec<LoxError>) -> (r: Result<(Expr, usize), (LoxError, usize)>)
    requires
        p <= tokens@.len(),
    ensures
        outcome(r) == call(token_views(tokens@), p as int).0,
        error_views(final(errors)@) == error_views(old(errors)@) + call(token_views(tokens@), p as int).1,
        bounded(r, p as int, tokens@.len() as int),
        r matches Ok((_, q)) ==> q > p,
    decreases tokens@.len() - p, 3int,
{
    let (e, q) = primary_at(tokens, p, errors)?;
    call_rest_at(tokens, e, q, errors)
}

#[verifier::rlimit(30)]
fn call_rest_at(tokens: &Vec<Token>, callee: Expr, q: usize, errors: &mut Vec<LoxError>) -> (r:
    Result<(Expr, usize), (LoxError, usize)>)
    requires
        q <= tokens@.len(),
    ensures
        outcome(r) == call_rest(token_views(tokens@), callee@, q as int).0,
        error_views(final(errors)@) == error_views(old(errors)@) + call_rest(token_views(tokens@), callee@, q as int).1,
        bounded(r, q as int, tokens@.len() as int),
    decreases tokens@.len() - q, 2int,
{
    if kind(tokens, q) == TokenType::LeftParen {
        let (arguments, rp) = if kind(tokens, q + 1) == TokenType::RightParen {
            let none: Vec<Expr> = Vec::new();
            assert(exprs_view(none@) =~= seq![]);
            (none, q + 1)
        } else {
            let none: Vec<Expr> = Vec::new();
            assert(exprs_view(none@) =~= seq![]);
            argument_list_at(tokens, q + 1, none, errors)?
        };
        let token = tokens[rp].duplicate();
        let e = Expr::Call { callee: Box::new(callee), token, arguments };
        call_rest_at(tokens, e, rp + 1, errors)
    } else {
        Ok((callee, q))
    }
}

#[verifier::rlimit(30)]
fn argument_list_at(
    tokens: &Vec<Token>,
    p: usize,
    args: Vec<Expr>,
    errors: &mut Vec<LoxError>,
) -> (r: Result<(Vec<Expr>, usize), (LoxError, usize)>)
    requires
        p <= tokens@.len(),
    ensures
        ({
            let spec = argument_list(token_views(tokens@), p as int, exprs_view(args@));
            &&& error_views(final(errors)@) == error_views(old(errors)@) + spec.1
            &&& match r {
                Ok((v, rp)) => {
                    &&& spec.0 == Ok::<(Seq<ExprModel>, int), (ErrorModel, int)>(
                        (exprs_view(v@), rp as int),
                    )
                    &&& kind_at(token_views(tokens@), rp as int) == TokenType::RightParen
                    &&& p <= rp < tokens@.len()
                },
                Err((err, q)) => {
                    &&& spec.0 == Err::<(Seq<ExprModel>, int), (ErrorModel, int)>((err@, q as int))
                    &&& p <= q <= tokens@.len()
                },
            }
        }),
    decreases tokens@.len() - p, 26int,
{
    proof {
        lemma_exprs_view_len(args@);
    }
    if args.len() >= MAX_ARGUMENTS {
        let (e, _) = fail(tokens, p, Problem::TooManyArguments);
        let ghost before = errors@;
        let ghost ev = e@;
        errors.push(e);
        assert(error_views(errors@) =~= error_views(before) + seq![ev]);
    }
    let (a, q) = expression_at(tokens, p, errors)?;
    let mut more = args;
    proof {
        lemma_exprs_view_push(more@, a);
    }
    more.push(a);
    let k = kind(tokens, q);
    if k == TokenType::Comma {
        argument_list_at(tokens, q + 1, more, errors)
    } else if k == TokenType::RightParen {
        Ok((more, q))
    } else {
        Err(fail(tokens, q, Problem::ExpectRightParenAfterArguments))
    }
}

#[verifier::rlimit(30)]
fn primary_at(tokens: &Vec<Token>, p: usize, errors: &mut Vec<LoxError>) -> (r: Result<(Expr, usize), (LoxError, usize)>)
    requires
        p <= tokens@.len(),
    ensures
        outcome(r) == primary(token_views(tokens@), p as int).0,
        error_views(final(errors)@) == error_views(old(errors)@) + primary(token_views(tokens@), p as int).1,
        bounded(r, p as int, tokens@.len() as int),
        r matches Ok((_, q)) ==> q > p,
    decreases tokens@.len() - p, 1int,
{
    proof {
        assert(error_views(old(errors)@) + Seq::<ErrorModel>::empty() =~= error_views(old(errors)@));
    }
    let k = kind(tokens, p);
    if k == TokenType::False {
        Ok((Expr::Literal { value: Literal::Boolean(false) }, p + 1))
    } else if k == TokenType::True {
        Ok((Expr::Literal { value: Literal::Boolean(true) }, p + 1))
    } else if k == TokenType::Nil {
        Ok((Expr::Literal { value: Literal::Nil }, p + 1))
    } else if k == TokenType::Number || k == TokenType::String {
        let value = match &tokens[p].literal {
            Some(l) => l.duplicate(),
            None => Literal::Nil,
        };
        Ok((Expr::Literal { value }, p + 1))
    } else if k == TokenType::Identifier {
        Ok((Expr::Variable { name: tokens[p].duplicate() }, p + 1))
    } else if k == TokenType::LeftParen {
        grouping_at(tokens, p, errors)
    } else {
        Err(fail(tokens, p, Problem::ExpectExpression))
    }
}

/// `"(" expression ")"`, from the `(` at `p`.
fn grouping_at(tokens: &Vec<Token>, p: usize, errors: &mut Vec<LoxError>) -> (r: Result<
    (Expr, usize),
    (LoxError, usize),
>)
    requires
        p < tokens@.len(),
        kind_at(token_views(tokens@), p as int) == TokenType::LeftParen,
    ensures
        outcome(r) == primary(token_views(tokens@), p as int).0,
        error_views(final(errors)@) == error_views(old(errors)@) + primary(
            token_views(tokens@),
            p as int,
        ).1,
        bounded(r, p as int, tokens@.len() as int),
        r matches Ok((_, q)) ==> q > p,
    decreases tokens@.len() - p, 0int,
{
    let n = tokens.len();
    assert(p < n);
    let (e, q) = expression_at(tokens, p + 1, errors)?;
    if kind(tokens, q) == TokenType::RightParen {
        Ok((Expr::Grouping { expression: Box::new(e) }, q + 1))
    } else {
        Err(fail(tokens, q, Problem::ExpectRightParenAfterExpression))
    }
}

pub open spec fn simple_outcome(r: Result<(StmtKind, usize), (LoxError, usize)>) -> Result<
    (StmtModel, int),
    (ErrorModel, int),
> {
    match r {
        Ok((st, q)) => Ok((st@, q as int)),
        Err((err, q)) => Err((err@, q as int)),
    }
}

pub open spec fn option_view(s: Option<StmtKind>) -> Option<StmtModel> {
    match s {
        Some(st) => Some(st@),
        None => None,
    }
}

proof fn lemma_stmts_view_push(s: Seq<StmtKind>, st: StmtKind)
    ensures
        stmts_view(s.push(st)) == stmts_view(s).push(st@),
{
    assert(s.push(st).drop_last() =~= s);
}

proof fn lemma_stmts_view_pair(a: StmtKind, b: StmtKind)
    ensures
        stmts_view(seq![a, b]) == seq![a@, b@],
{
    lemma_stmts_view_push(seq![a], b);
    lemma_stmts_view_push(seq![], a);
    assert(seq![a].push(b) =~= seq![a, b]);
    assert(Seq::<StmtKind>::empty().push(a) =~= seq![a]);
    assert(stmts_view(seq![]) =~= seq![]);
    assert(seq![a@].push(b@) =~= seq![a@, b@]);
}

#[verifier::rlimit(30)]
fn expression_statement_at(
    tokens: &Vec<Token>,
    p: usize,
    print: bool,
    errors: &mut Vec<LoxError>,
) -> (r: Result<(StmtKind, usize), (LoxError, usize)>)
    requires
        p <= tokens@.len(),
    ensures
        simple_outcome(r) == expression_statement(token_views(tokens@), p as int, print).0,
        error_views(final(errors)@) == error_views(old(errors)@) + expression_statement(
            token_views(tokens@),
            p as int,
            print,
        ).1,
        bounded(r, p as int, tokens@.len() as int),
        r matches Ok((_, q)) ==> q > p,
{
    let (e, q) = expression_at(tokens, p, errors)?;
    if kind(tokens, q) == TokenType::Semicolon {
        let st = if print {
            StmtKind::Print { expr: e }
        } else {
            StmtKind::Expression { expr: e }
        };
        Ok((st, q + 1))
    } else {
        let problem = if print {
            Problem::ExpectSemicolonAfterValue
        } else {
            Problem::ExpectSemicolonAfterExpression
        };
        Err(fail(tokens, q, problem))
    }
}

#[verifier::rlimit(30)]
fn var_declaration_at(tokens: &Vec<Token>, p: usize, errors: &mut Vec<LoxError>) -> (r: Result<
    (StmtKind, usize),
    (LoxError, usize),
>)
    requires
        p <= tokens@.len(),
    ensures
        simple_outcome(r) == var_declaration(token_views(tokens@), p as int).0,
        error_views(final(errors)@) == error_views(old(errors)@) + var_declaration(
            token_views(tokens@),
            p as int,
        ).1,
        bounded(r, p as int, tokens@.len() as int),
        r matches Ok((_, q)) ==> q > p,
{
    if kind(tokens, p) != TokenType::Identifier {
        return Err(fail(tokens, p, Problem::ExpectVariableName));
    }
    let name = tokens[p].duplicate();
    let (initializer, q) = if kind(tokens, p + 1) == TokenType::Equal {
        let (e, q) = expression_at(tokens, p + 2, errors)?;
        (Some(e), q)
    } else {
        (None, p + 1)
    };
    if kind(tokens, q) == TokenType::Semicolon {
        Ok((StmtKind::Var { name, initializer }, q + 1))
    } else {
        Err(fail(tokens, q, Problem::ExpectSemicolonAfterVariable))
    }
}

/// Skips to where parsing can resume after an error at `p`.
fn synchronize_at(tokens: &Vec<Token>, p: usize) -> (q: usize)
    requires
        p <= token_views(tokens@).len(),
    ensures
        q == synchronize(token_views(tokens@), p as int),
        p <= q <= token_views(tokens@).len(),
        kind_at(token_views(tokens@), p as int) != TokenType::Eof ==> q > p,
{
    if kind(tokens, p) == TokenType::Eof {
        return p;
    }
    let mut q = p + 1;
    while !(kind(tokens, q) == TokenType::Eof || kind(tokens, q - 1) == TokenType::Semicolon
        || is_statement_keyword(kind(tokens, q)))
        invariant
            p < q <= token_views(tokens@).len(),
            sync_from(token_views(tokens@), p + 1) == sync_from(token_views(tokens@), q as int),
        decreases token_views(tokens@).len() - q,
    {
        q = q + 1;
    }
    q
}

fn is_statement_keyword(k: TokenType) -> (r: bool)
    ensures
        r == starts_statement(k),
{
    match k {
        TokenType::Class | TokenType::Fun | TokenType::Var | TokenType::For | TokenType::If
        | TokenType::While | TokenType::Print | TokenType::Return => true,
        _ => false,
    }
}

#[verifier::rlimit(30)]
fn declaration_at(tokens: &Vec<Token>, p: usize, errors: &mut Vec<LoxError>) -> (r: (
    Option<StmtKind>,
    usize,
))
    requires
        p <= token_views(tokens@).len(),
    ensures
        ({
            let d = declaration(token_views(tokens@), p as int);
            &&& option_view(r.0) == d.0
            &&& r.1 as int == d.1
            &&& error_views(final(errors)@) == error_views(old(errors)@) + d.2
        }),
        p <= r.1 <= token_views(tokens@).len(),
        kind_at(token_views(tokens@), p as int) != TokenType::Eof ==> r.1 > p,
    decreases token_views(tokens@).len() - p, 3int,
{
    let ghost before = errors@;
    let r = if kind(tokens, p) == TokenType::Var {
        var_declaration_at(tokens, p + 1, errors)
    } else {
        statement_at(tokens, p, errors)
    };
    match r {
        Ok((st, q)) => {
            assert(error_views(errors@) =~= error_views(before) + declaration(token_views(tokens@), p as int).2);
            (Some(st), q)
        },
        Err((e, q)) => {
            let resume = synchronize_at(tokens, q);
            let ghost mid = errors@;
            let ghost ev = e@;
            errors.push(e);
            assert(error_views(errors@) =~= error_views(mid).push(ev));
            assert(error_views(errors@) =~= error_views(before) + declaration(token_views(tokens@), p as int).2);
            (None, resume)
        },
    }
}

#[verifier::rlimit(30)]
fn statement_at(tokens: &Vec<Token>, p: usize, errors: &mut Vec<LoxError>) -> (r: Result<
    (StmtKind, usize),
    (LoxError, usize),
>)
    requires
        p <= token_views(tokens@).len(),
    ensures
        simple_outcome(r) == statement(token_views(tokens@), p as int).0,
        error_views(final(errors)@) == error_views(old(errors)@) + statement(token_views(tokens@), p as int).1,
        bounded(r, p as int, token_views(tokens@).len() as int),
        r matches Ok((_, q)) ==> q > p,
    decreases token_views(tokens@).len() - p, 2int,
{
    let k = kind(tokens, p);
    if k == TokenType::For {
        for_statement_at(tokens, p + 1, errors)
    } else if k == TokenType::If {
        if_statement_at(tokens, p + 1, errors)
    } else if k == TokenType::Print {
        expression_statement_at(tokens, p + 1, true, errors)
    } else if k == TokenType::While {
        while_statement_at(tokens, p + 1, errors)
    } else if k == TokenType::LeftBrace {
        let (statements, q) = block_at(tokens, p + 1, errors)?;
        Ok((StmtKind::Block { statements }, q))
    } else {
        expression_statement_at(tokens, p, false, errors)
    }
}

#[verifier::rlimit(30)]
fn block_at(tokens: &Vec<Token>, p: usize, errors: &mut Vec<LoxError>) -> (r: Result<
    (Vec<StmtKind>, usize),
    (LoxError, usize),
>)
    requires
        p <= token_views(tokens@).len(),
    ensures
        ({
            let b = block(token_views(tokens@), p as int, seq![]);
            &&& error_views(final(errors)@) == error_views(old(errors)@) + b.1
            &&& match r {
                Ok((v, q)) => b.0 == Ok::<(Seq<StmtModel>, int), (ErrorModel, int)>(
                    (stmts_view(v@), q as int),
                ) && p < q <= token_views(tokens@).len(),
                Err((err, q)) => b.0 == Err::<(Seq<StmtModel>, int), (ErrorModel, int)>(
                    (err@, q as int),
                ) && p <= q <= token_views(tokens@).len(),
            }
        }),
    decreases token_views(tokens@).len() - p, 4int,
{
    let mut acc: Vec<StmtKind> = Vec::new();
    let mut q = p;
    let ghost found: Seq<ErrorModel> = seq![];
    assert(stmts_view(acc@) =~= seq![]);
    assert(error_views(errors@) =~= error_views(old(errors)@) + found);
    loop
        invariant
            p <= q <= token_views(tokens@).len(),
            error_views(errors@) == error_views(old(errors)@) + found,
            ({
                let b = block(token_views(tokens@), q as int, stmts_view(acc@));
                block(token_views(tokens@), p as int, seq![]) == (b.0, found + b.1)
            }),
        decreases token_views(tokens@).len() - q,
    {
        let k = kind(tokens, q);
        if k == TokenType::RightBrace {
            assert(found + seq![] =~= found);
            return Ok((acc, q + 1));
        }
        if k == TokenType::Eof {
            assert(found + seq![] =~= found);
            return Err(fail(tokens, q, Problem::ExpectRightBraceAfterBlock));
        }
        let ghost at = q as int;
        let ghost acc_view = stmts_view(acc@);
        let (d, q2) = declaration_at(tokens, q, errors);
        let ghost e1 = declaration(token_views(tokens@), at).2;
        match d {
            Some(st) => {
                proof {
                    lemma_stmts_view_push(acc@, st);
                }
                acc.push(st);
            },
            None => {},
        }
        proof {
            let rest = block(token_views(tokens@), q2 as int, stmts_view(acc@));
            assert(block(token_views(tokens@), at, acc_view) == (rest.0, e1 + rest.1));
            assert(found + (e1 + rest.1) =~= (found + e1) + rest.1);
            found = found + e1;
            assert(error_views(errors@) =~= error_views(old(errors)@) + found);
        }
        q = q2;
    }
}

fn condition_at(
    tokens: &Vec<Token>,
    p: usize,
    open: Problem,
    close: Problem,
    errors: &mut Vec<LoxError>,
) -> (r: Result<(Expr, usize), (LoxError, usize)>)
    requires
        p <= tokens@.len(),
    ensures
        outcome(r) == condition(token_views(tokens@), p as int, open, close).0,
        error_views(final(errors)@) == error_views(old(errors)@) + condition(
            token_views(tokens@),
            p as int,
            open,
            close,
        ).1,
        bounded(r, p as int, tokens@.len() as int),
        r matches Ok((_, q)) ==> q > p,
{
    if kind(tokens, p) != TokenType::LeftParen {
        return Err(fail(tokens, p, open));
    }
    let (c, q) = expression_at(tokens, p + 1, errors)?;
    if kind(tokens, q) == TokenType::RightParen {
        Ok((c, q + 1))
    } else {
        Err(fail(tokens, q, close))
    }
}

#[verifier::rlimit(40)]
fn if_statement_at(tokens: &Vec<Token>, p: usize, errors: &mut Vec<LoxError>) -> (r: Result<
    (StmtKind, usize),
    (LoxError, usize),
>)
    requires
        p <= token_views(tokens@).len(),
    ensures
        simple_outcome(r) == if_statement(token_views(tokens@), p as int).0,
        error_views(final(errors)@) == error_views(old(errors)@) + if_statement(token_views(tokens@), p as int).1,
        bounded(r, p as int, token_views(tokens@).len() as int),
        r matches Ok((_, q)) ==> q > p,
    decreases token_views(tokens@).len() - p, 1int,
{
    let (condition, q) = condition_at(
        tokens,
        p,
        Problem::ExpectLeftParenAfterIf,
        Problem::ExpectRightParenAfterIfCondition,
        errors,
    )?;
    let (then_branch, q2) = statement_at(tokens, q, errors)?;
    if kind(tokens, q2) == TokenType::Else {
        let r2 = statement_at(tokens, q2 + 1, errors);
        assert(error_views(errors@) =~= error_views(old(errors)@) + if_statement(token_views(tokens@), p as int).1);
        let (else_branch, q3) = r2?;
        Ok(
            (
                StmtKind::If {
                    condition,
                    then_branch: Box::new(then_branch),
                    else_branch: Some(Box::new(else_branch)),
                },
                q3,
            ),
        )
    } else {
        Ok((StmtKind::If { condition, then_branch: Box::new(then_branch), else_branch: None }, q2))
    }
}

fn while_statement_at(tokens: &Vec<Token>, p: usize, errors: &mut Vec<LoxError>) -> (r: Result<
    (StmtKind, usize),
    (LoxError, usize),
>)
    requires
        p <= token_views(tokens@).len(),
    ensures
        simple_outcome(r) == while_statement(token_views(tokens@), p as int).0,
        error_views(final(errors)@) == error_views(old(errors)@) + while_statement(token_views(tokens@), p as int).1,
        bounded(r, p as int, token_views(tokens@).len() as int),
        r matches Ok((_, q)) ==> q > p,
    decreases token_views(tokens@).len() - p, 1int,
{
    let (condition, q) = condition_at(
        tokens,
        p,
        Problem::ExpectLeftParenAfterWhile,
        Problem::ExpectRightParenAfterCondition,
        errors,
    )?;
    let (body, q2) = statement_at(tokens, q, errors)?;
    Ok((StmtKind::While { condition, body: Box::new(body) }, q2))
}

pub open spec fn clauses_outcome(
    r: Result<(Option<StmtKind>, Option<Expr>, Option<Expr>, usize), (LoxError, usize)>,
) -> Result<(Option<StmtModel>, Option<ExprModel>, Option<ExprModel>, int), (ErrorModel, int)> {
    match r {
        Ok((i, c, n, q)) => Ok(
            (
                option_view(i),
                match c {
                    Some(e) => Some(e@),
                    None => None,
                },
                match n {
                    Some(e) => Some(e@),
                    None => None,
                },
                q as int,
            ),
        ),
        Err((err, q)) => Err((err@, q as int)),
    }
}

#[verifier::rlimit(30)]
fn for_clauses_at(tokens: &Vec<Token>, p: usize, errors: &mut Vec<LoxError>) -> (r: Result<
    (Option<StmtKind>, Option<Expr>, Option<Expr>, usize),
    (LoxError, usize),
>)
    requires
        p <= token_views(tokens@).len(),
    ensures
        clauses_outcome(r) == for_clauses(token_views(tokens@), p as int).0,
        error_views(final(errors)@) == error_views(old(errors)@) + for_clauses(
            token_views(tokens@),
            p as int,
        ).1,
        match r {
            Ok((_, _, _, q)) => p < q <= token_views(tokens@).len(),
            Err((_, q)) => p <= q <= token_views(tokens@).len(),
        },
{
    let k = kind(tokens, p);
    let (initializer, q) = if k == TokenType::Semicolon {
        (None, p + 1)
    } else if k == TokenType::Var {
        let (s, q) = var_declaration_at(tokens, p + 1, errors)?;
        (Some(s), q)
    } else {
        let (s, q) = expression_statement_at(tokens, p, false, errors)?;
        (Some(s), q)
    };
    let (condition, q1) = if kind(tokens, q) != TokenType::Semicolon {
        let (c, q1) = expression_at(tokens, q, errors)?;
        (Some(c), q1)
    } else {
        (None, q)
    };
    if kind(tokens, q1) != TokenType::Semicolon {
        return Err(fail(tokens, q1, Problem::ExpectSemicolonAfterLoopCondition));
    }
    let (increment, q2) = if kind(tokens, q1 + 1) != TokenType::RightParen {
        let (i, q2) = expression_at(tokens, q1 + 1, errors)?;
        (Some(i), q2)
    } else {
        (None, q1 + 1)
    };
    if kind(tokens, q2) != TokenType::RightParen {
        return Err(fail(tokens, q2, Problem::ExpectRightParenAfterForClauses));
    }
    Ok((initializer, condition, increment, q2 + 1))
}

/// Writes a `for` loop as a `while` (see `desugared_for`).
fn desugar(
    initializer: Option<StmtKind>,
    condition: Option<Expr>,
    increment: Option<Expr>,
    body: StmtKind,
) -> (r: StmtKind)
    ensures
        r@ == desugared_for(
            option_view(initializer),
            match condition {
                Some(e) => Some(e@),
                None => None,
            },
            match increment {
                Some(e) => Some(e@),
                None => None,
            },
            body@,
        ),
{
    let looped = match increment {
        Some(i) => {
            let inc = StmtKind::Expression { expr: i };
            proof {
                lemma_stmts_view_pair(body, inc);
            }
            let v = vec![body, inc];
            assert(v@ == seq![body, inc]);
            let b = StmtKind::Block { statements: v };
            assert(b@ == StmtModel::Block { statements: seq![body@, inc@] });
            b
        },
        None => body,
    };
    let cond = match condition {
        Some(c) => c,
        None => Expr::Literal { value: Literal::Boolean(true) },
    };
    let w = StmtKind::While { condition: cond, body: Box::new(looped) };
    let result = match initializer {
        Some(s) => {
            proof {
                lemma_stmts_view_pair(s, w);
            }
            let v = vec![s, w];
            assert(v@ == seq![s, w]);
            let b = StmtKind::Block { statements: v };
            assert(b@ == StmtModel::Block { statements: seq![s@, w@] });
            b
        },
        None => w,
    };
    result
}

fn for_statement_at(tokens: &Vec<Token>, p: usize, errors: &mut Vec<LoxError>) -> (r: Result<
    (StmtKind, usize),
    (LoxError, usize),
>)
    requires
        p <= token_views(tokens@).len(),
    ensures
        simple_outcome(r) == for_statement(token_views(tokens@), p as int).0,
        error_views(final(errors)@) == error_views(old(errors)@) + for_statement(
            token_views(tokens@),
            p as int,
        ).1,
        bounded(r, p as int, token_views(tokens@).len() as int),
        r matches Ok((_, q)) ==> q > p,
    decreases token_views(tokens@).len() - p, 1int,
{
    if kind(tokens, p) != TokenType::LeftParen {
        assert(error_views(errors@) =~= error_views(old(errors)@) + seq![]);
        return Err(fail(tokens, p, Problem::ExpectLeftParenAfterFor));
    }
    let clauses = for_clauses_at(tokens, p + 1, errors);
    for_body_at(tokens, p, clauses, errors)
}

fn for_body_at(
    tokens: &Vec<Token>,
    p: usize,
    clauses: Result<(Option<StmtKind>, Option<Expr>, Option<Expr>, usize), (LoxError, usize)>,
    errors: &mut Vec<LoxError>,
) -> (r: Result<(StmtKind, usize), (LoxError, usize)>)
    requires
        p < token_views(tokens@).len(),
        match clauses {
            Ok((_, _, _, q)) => p < q <= token_views(tokens@).len(),
            Err((_, q)) => p <= q <= token_views(tokens@).len(),
        },
    ensures
        simple_outcome(r) == for_body(token_views(tokens@), p as int, clauses_outcome(clauses)).0,
        error_views(final(errors)@) == error_views(old(errors)@) + for_body(
            token_views(tokens@),
            p as int,
            clauses_outcome(clauses),
        ).1,
        bounded(r, p as int, token_views(tokens@).len() as int),
        r matches Ok((_, q)) ==> q > p,
    decreases token_views(tokens@).len() - p, 0int,
{
    match clauses {
        Err(f) => {
            assert(error_views(errors@) =~= error_views(old(errors)@) + seq![]);
            Err(f)
        },
        Ok((initializer, condition, increment, q)) => {
            let (body, q2) = statement_at(tokens, q, errors)?;
            Ok((desugar(initializer, condition, increment, body), q2))
        },
    }
}

/// Parses a token sequence. `tokens()` are the tokens' views, `position()`
/// the index of the next token to read.
pub struct Parser {
    tokens: Vec<Token>,
    current: usize,
    reported: Vec<LoxError>,
}

impl Parser {
    pub closed spec fn tokens(&self) -> Seq<TokenModel> {
        token_views(self.tokens@)
    }

    pub closed spec fn position(&self) -> int {
        self.current as int
    }

    pub closed spec fn wf(&self) -> bool {
        self.current <= self.tokens@.len()
    }

    /// The errors that `expression` reported without stopping.
    pub closed spec fn reports(&self) -> Seq<ErrorModel> {
        error_views(self.reported@)
    }

    /// Hands out the errors that `expression` reported without stopping,
    /// and forgets them.
    pub fn take_errors(&mut self) -> (r: Vec<LoxError>)
        ensures
            error_views(r@) == old(self).reports(),
            final(self).reports() == Seq::<ErrorModel>::empty(),
            final(self).tokens() == old(self).tokens(),
            final(self).position() == old(self).position(),
            final(self).wf() == old(self).wf(),
    {
        let mut out: Vec<LoxError> = Vec::new();
        std::mem::swap(&mut out, &mut self.reported);
        assert(error_views(self.reported@) =~= seq![]);
        out
    }

    pub fn new(tokens: Vec<Token>) -> (r: Parser)
        ensures
            r.wf(),
            r.tokens() == token_views(tokens@),
            r.position() == 0,
            r.reports() == Seq::<ErrorModel>::empty(),
    {
        let reported: Vec<LoxError> = Vec::new();
        assert(error_views(reported@) =~= Seq::<ErrorModel>::empty());
        Parser { tokens, current: 0, reported }
    }

    /// Parses one expression from the position on, and moves past it (or to
    /// where the error was found). Errors that do not stop parsing (too many
    /// arguments) are added to `reports()`.
    pub fn expression(&mut self) -> (r: Result<Expr, LoxError>)
        requires
            old(self).wf(),
        ensures
            final(self).wf(),
            final(self).tokens() == old(self).tokens(),
            final(self).reports() == old(self).reports() + expression(
                old(self).tokens(),
                old(self).position(),
            ).1,
            match expression(old(self).tokens(), old(self).position()).0 {
                Ok((e, q)) => r matches Ok(x) && x@ == e && final(self).position() == q,
                Err((err, q)) => r matches Err(x) && x@ == err && final(self).position() == q,
            },
    {
        match expression_at(&self.tokens, self.current, &mut self.reported) {
            Ok((e, q)) => {
                self.current = q;
                Ok(e)
            },
            Err((err, q)) => {
                self.current = q;
                Err(err)
            },
        }
    }

    /// Parses declarations up to the end of input, recovering after each
    /// error: the statements if there was no error, else every error in
    /// order.
    pub fn parse(&mut self) -> (r: Result<Vec<StmtKind>, Vec<LoxError>>)
        requires
            old(self).wf(),
        ensures
            final(self).wf(),
            final(self).tokens() == old(self).tokens(),
            ({
                let (program, errors) = program_from(old(self).tokens(), old(self).position());
                if errors.len() == 0 {
                    r matches Ok(v) && stmts_view(v@) == program
                } else {
                    r matches Err(es) && error_views(es@) == errors
                }
            }),
    {
        let mut stmts: Vec<StmtKind> = Vec::new();
        let mut errors: Vec<LoxError> = Vec::new();
        let mut p = self.current;
        let ghost toks = token_views(self.tokens@);
        let ghost first = p as int;
        assert(stmts_view(stmts@) =~= seq![]);
        assert(error_views(errors@) =~= seq![]);
        assert(program_from(toks, first).0 =~= stmts_view(stmts@) + program_from(toks, first).0);
        assert(program_from(toks, first).1 =~= error_views(errors@) + program_from(toks, first).1);
        while kind(&self.tokens, p) != TokenType::Eof
            invariant
                p <= self.tokens@.len(),
                toks == token_views(self.tokens@),
                ({
                    let rest = program_from(toks, p as int);
                    &&& program_from(toks, first).0 == stmts_view(stmts@) + rest.0
                    &&& program_from(toks, first).1 == error_views(errors@) + rest.1
                }),
            decreases self.tokens@.len() - p,
        {
            let ghost at = p as int;
            let ghost sv = stmts_view(stmts@);
            let ghost ev = error_views(errors@);
            let (d, q) = declaration_at(&self.tokens, p, &mut errors);
            match d {
                Some(st) => {
                    proof {
                        lemma_stmts_view_push(stmts@, st);
                    }
                    stmts.push(st);
                },
                None => {},
            }
            proof {
                let dd = declaration(toks, at);
                let here: Seq<StmtModel> = match dd.0 {
                    Some(s) => seq![s],
                    None => seq![],
                };
                let rest = program_from(toks, q as int);
                assert(stmts_view(stmts@) =~= sv + here);
                assert(sv + (here + rest.0) =~= (sv + here) + rest.0);
                assert(ev + (dd.2 + rest.1) =~= (ev + dd.2) + rest.1);
            }
            p = q;
        }
        self.current = p;
        assert(program_from(toks, first).0 =~= stmts_view(stmts@));
        assert(program_from(toks, first).1 =~= error_views(errors@));
        if errors.len() == 0 {
            Ok(stmts)
        } else {
            Err(errors)
        }
    }
}

} // verus!
