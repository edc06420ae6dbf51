//! The evaluator: walks statement and expression trees against a stack of
//! scopes, collecting what `print` writes.
use crate::double::{
    compare, difference, double_difference, double_order, double_product, double_quotient,
    double_sum, negate, negated, product, quotient, render, sum,
};
use crate::environment::{assigned, defined, lookup, Environment, Scopes};
use crate::error::{runtime_error_at, LoxError, Problem};
use crate::expr::Expr;
use crate::stmt::StmtKind;
use crate::token::{Literal, Token, TokenType};
use crate::value::{display, owned, truthy, values_equal, Val, Value};
use std::cmp::Ordering;
use vstd::prelude::*;

verus! {

broadcast use vstd::std_specs::vec::group_vec_axioms;

/// What a run of statements can see and change: the scopes, the lines
/// printed so far, and how many more loop iterations may start.
pub struct State {
    pub scopes: Scopes,
    pub output: Seq<Seq<char>>,
    pub fuel: nat,
}

pub open spec fn literal_val(l: Literal) -> Val {
    match l {
        Literal::Number(n) => Val::Number(n),
        Literal::String(s) => Val::Str(s@),
        Literal::Boolean(b) => Val::Boolean(b),
        Literal::Nil => Val::Nil,
    }
}

pub open spec fn result_view(r: Result<Value, LoxError>) -> Result<Val, LoxError> {
    match r {
        Ok(v) => Ok(v@),
        Err(e) => Err(e),
    }
}

/// The result of a unary operator on its operand's value.
pub open spec fn unary_result(operator: Token, v: Val) -> Result<Val, LoxError> {
    match operator.token_type {
        TokenType::Minus => match v {
            Val::Number(n) => Ok(Val::Number(negated(n))),
            _ => Err(runtime_error_at(operator, Problem::OperandMustBeNumber)),
        },
        TokenType::Bang => Ok(Val::Boolean(!truthy(v))),
        _ => Err(runtime_error_at(operator, Problem::UnsupportedExpression)),
    }
}

/// Whether a comparison operator holds of an ordering of its operands; no
/// comparison holds of unordered operands (a NaN).
pub open spec fn comparison_holds(kind: TokenType, order: Option<Ordering>) -> bool {
    match kind {
        TokenType::Greater => order == Some(Ordering::Greater),
        TokenType::GreaterEqual => order == Some(Ordering::Greater) || order == Some(
            Ordering::Equal,
        ),
        TokenType::Less => order == Some(Ordering::Less),
        _ => order == Some(Ordering::Less) || order == Some(Ordering::Equal),
    }
}

/// The result of a binary operator on its operands' values. Division by
/// zero follows binary64 and gives an infinity or a NaN, never an error.
pub open spec fn binary_result(operator: Token, l: Val, r: Val) -> Result<Val, LoxError> {
    let kind = operator.token_type;
    if kind == TokenType::EqualEqual {
        Ok(Val::Boolean(values_equal(l, r)))
    } else if kind == TokenType::BangEqual {
        Ok(Val::Boolean(!values_equal(l, r)))
    } else if kind == TokenType::Plus {
        match (l, r) {
            (Val::Number(a), Val::Number(b)) => Ok(Val::Number(double_sum(a, b))),
            (Val::Str(a), Val::Str(b)) => Ok(Val::Str(a + b)),
            _ => Err(runtime_error_at(operator, Problem::OperandsMustBeNumbersOrStrings)),
        }
    } else if kind == TokenType::Minus || kind == TokenType::Star || kind == TokenType::Slash
        || kind == TokenType::Greater || kind == TokenType::GreaterEqual || kind == TokenType::Less
        || kind == TokenType::LessEqual {
        match (l, r) {
            (Val::Number(a), Val::Number(b)) => Ok(
                if kind == TokenType::Minus {
                    Val::Number(double_difference(a, b))
                } else if kind == TokenType::Star {
                    Val::Number(double_product(a, b))
                } else if kind == TokenType::Slash {
                    Val::Number(double_quotient(a, b))
                } else {
                    Val::Boolean(comparison_holds(kind, double_order(a, b)))
                },
            ),
            _ => Err(runtime_error_at(operator, Problem::OperandsMustBeNumbers)),
        }
    } else {
        Err(runtime_error_at(operator, Problem::UnsupportedExpression))
    }
}

/// Whether a logical operator's left value decides its result: a truthy
/// value for `or`, a falsy one for `and`.
pub open spec fn short_circuits(operator: Token, left: Val) -> bool {
    if operator.token_type == TokenType::Or {
        truthy(left)
    } else {
        !truthy(left)
    }
}

pub open spec fn call_width(e: Expr) -> int {
    match e {
        Expr::Call { arguments, .. } => arguments.len() + 1,
        _ => 0,
    }
}

/// Evaluating an expression: its value or the first error, and the scopes
/// after the assignments it made. Operands are evaluated left to right.
pub open spec fn eval(e: Expr, scopes: Scopes) -> (Result<Val, LoxError>, Scopes)
    decreases e, call_width(e),
{
    match e {
        Expr::Literal { value } => (Ok(literal_val(value)), scopes),
        Expr::Grouping { expression } => eval(*expression, scopes),
        Expr::Variable { name } => match lookup(scopes, name.lexeme@) {
            Some(v) => (Ok(v), scopes),
            None => (Err(runtime_error_at(name, Problem::UndefinedVariable)), scopes),
        },
        Expr::Assign { name, value } => {
            let (r, s1) = eval(*value, scopes);
            match r {
                Err(err) => (Err(err), s1),
                Ok(v) => match assigned(s1, name.lexeme@, v) {
                    Some(s2) => (Ok(v), s2),
                    None => (Err(runtime_error_at(name, Problem::UndefinedVariable)), s1),
                },
            }
        },
        Expr::Unary { operator, right } => {
            let (r, s1) = eval(*right, scopes);
            match r {
                Err(err) => (Err(err), s1),
                Ok(v) => (unary_result(operator, v), s1),
            }
        },
        Expr::Binary { left, operator, right } => {
            let (a, s1) = eval(*left, scopes);
            match a {
                Err(err) => (Err(err), s1),
                Ok(x) => {
                    let (b, s2) = eval(*right, s1);
                    match b {
                        Err(err) => (Err(err), s2),
                        Ok(y) => (binary_result(operator, x, y), s2),
                    }
                },
            }
        },
        Expr::Logical { left, operator, right } => {
            let (a, s1) = eval(*left, scopes);
            match a {
                Err(err) => (Err(err), s1),
                Ok(x) => if short_circuits(operator, x) {
                    (Ok(x), s1)
                } else {
                    eval(*right, s1)
                },
            }
        },
        Expr::Call { callee, token, arguments } => {
            let (c, s1) = eval(*callee, scopes);
            match c {
                Err(err) => (Err(err), s1),
                Ok(f) => {
                    let (a, s2) = eval_arguments(e, 0, s1);
                    match a {
                        Err(err) => (Err(err), s2),
                        Ok(_) => (
                            Err(
                                runtime_error_at(
                                    token,
                                    if f is Callable {
                                        Problem::CallUnavailable
                                    } else {
                                        Problem::NotCallable
                                    },
                                ),
                            ),
                            s2,
                        ),
                    }
                },
            }
        },
        Expr::Get { name, .. } => (
            Err(runtime_error_at(name, Problem::UnsupportedExpression)),
            scopes,
        ),
        Expr::SetProperty { name, .. } => (
            Err(runtime_error_at(name, Problem::UnsupportedExpression)),
            scopes,
        ),
        Expr::Super { keyword, .. } => (
            Err(runtime_error_at(keyword, Problem::UnsupportedExpression)),
            scopes,
        ),
        Expr::This { keyword } => (
            Err(runtime_error_at(keyword, Problem::UnsupportedExpression)),
            scopes,
        ),
    }
}

/// Evaluating the arguments of a call from the `i`-th on, left to right,
/// stopping at the first error.
pub open spec fn eval_arguments(call: Expr, i: int, scopes: Scopes) -> (Result<(), LoxError>, Scopes)
    decreases call, call_width(call) - 1 - i,
{
    match call {
        Expr::Call { arguments, .. } => if 0 <= i < arguments.len() {
            let (r, s1) = eval(arguments[i], scopes);
            match r {
                Err(err) => (Err(err), s1),
                Ok(_) => eval_arguments(call, i + 1, s1),
            }
        } else {
            (Ok(()), scopes)
        },
        _ => (Ok(()), scopes),
    }
}

pub open spec fn stmt_width(s: StmtKind) -> int {
    match s {
        StmtKind::Block { statements } => statements.len() + 1,
        StmtKind::While { .. } => 1,
        _ => 0,
    }
}

pub open spec fn with_scopes(st: State, scopes: Scopes) -> State {
    State { scopes, ..st }
}

/// Running a statement: success or the first runtime error, and the state
/// after it. A block runs in a new innermost scope, which is left on every
/// exit; each loop iteration spends one unit of fuel, and a loop that finds
/// none left stops with an error.
pub open spec fn execution(s: StmtKind, st: State) -> (Result<(), LoxError>, State)
    decreases st.fuel, s, stmt_width(s),
{
    match s {
        StmtKind::Expression { expr } => {
            let (r, s1) = eval(expr, st.scopes);
            match r {
                Err(err) => (Err(err), with_scopes(st, s1)),
                Ok(_) => (Ok(()), with_scopes(st, s1)),
            }
        },
        StmtKind::Print { expr } => {
            let (r, s1) = eval(expr, st.scopes);
            match r {
                Err(err) => (Err(err), with_scopes(st, s1)),
                Ok(v) => (Ok(()), State { scopes: s1, output: st.output.push(display(v)), ..st }),
            }
        },
        StmtKind::Var { name, initializer } => match initializer {
            None => (Ok(()), with_scopes(st, defined(st.scopes, name.lexeme@, Val::Nil))),
            Some(init) => {
                let (r, s1) = eval(init, st.scopes);
                match r {
                    Err(err) => (Err(err), with_scopes(st, s1)),
                    Ok(v) => (Ok(()), with_scopes(st, defined(s1, name.lexeme@, v))),
                }
            },
        },
        StmtKind::Block { .. } => {
            let (r, st1) = block_execution(s, 0, with_scopes(st, st.scopes.push(Map::empty())));
            (r, with_scopes(st1, st1.scopes.drop_last()))
        },
        StmtKind::If { condition, then_branch, else_branch } => {
            let (c, s1) = eval(condition, st.scopes);
            match c {
                Err(err) => (Err(err), with_scopes(st, s1)),
                Ok(v) => if truthy(v) {
                    execution(*then_branch, with_scopes(st, s1))
                } else {
                    match else_branch {
                        Some(b) => execution(*b, with_scopes(st, s1)),
                        None => (Ok(()), with_scopes(st, s1)),
                    }
                },
            }
        },
        StmtKind::While { .. } => loop_execution(s, st),
    }
}

/// Running the statements of a block from the `i`-th on, stopping at the
/// first error.
pub open spec fn block_execution(block: StmtKind, i: int, st: State) -> (Result<(), LoxError>, State)
    decreases st.fuel, block, stmt_width(block) - 1 - i,
{
    match block {
        StmtKind::Block { statements } => if 0 <= i < statements.len() {
            let (r, st1) = execution(statements[i], st);
            match r {
                Err(err) => (Err(err), st1),
                Ok(_) => if st1.fuel <= st.fuel {
                    block_execution(block, i + 1, st1)
                } else {
                    (Ok(()), st1)
                },
            }
        } else {
            (Ok(()), st)
        },
        _ => (Ok(()), st),
    }
}

/// Running a `while` loop: the condition is evaluated before each
/// iteration, and each iteration first spends a unit of fuel.
pub open spec fn loop_execution(w: StmtKind, st: State) -> (Result<(), LoxError>, State)
    decreases st.fuel, w, 0int,
{
    match w {
        StmtKind::While { condition, body } => {
            let (c, s1) = eval(condition, st.scopes);
            match c {
                Err(err) => (Err(err), with_scopes(st, s1)),
                Ok(v) => if !truthy(v) {
                    (Ok(()), with_scopes(st, s1))
                } else if st.fuel == 0 {
                    (Err(LoxError::BudgetExhausted), with_scopes(st, s1))
                } else {
                    let (r, st1) = execution(
                        *body,
                        State { scopes: s1, output: st.output, fuel: (st.fuel - 1) as nat },
                    );
                    match r {
                        Err(err) => (Err(err), st1),
                        Ok(_) => if st1.fuel < st.fuel {
                            loop_execution(w, st1)
                        } else {
                            (Ok(()), st1)
                        },
                    }
                },
            }
        },
        _ => (Ok(()), st),
    }
}

/// Running a program's statements from the `i`-th on, stopping at the first
/// error.
pub open spec fn program_execution(stmts: Seq<StmtKind>, i: int, st: State) -> (Result<
    (),
    LoxError,
>, State)
    decreases stmts.len() - i,
{
    if 0 <= i < stmts.len() {
        let (r, st1) = execution(stmts[i], st);
        match r {
            Err(err) => (Err(err), st1),
            Ok(_) => program_execution(stmts, i + 1, st1),
        }
    } else {
        (Ok(()), st)
    }
}

/// Arithmetic and comparison on numbers follow binary64 semantics: once
/// both operands have evaluated to numbers, the result is their binary64
/// sum, difference, product or quotient, or the binary64 comparison.
pub proof fn lemma_arithmetic(
    left: Expr,
    operator: Token,
    right: Expr,
    scopes: Scopes,
    x: u64,
    y: u64,
)
    requires
        eval(left, scopes).0 == Ok::<Val, LoxError>(Val::Number(x)),
        eval(right, eval(left, scopes).1).0 == Ok::<Val, LoxError>(Val::Number(y)),
    ensures
        ({
            let r = eval(
                Expr::Binary { left: Box::new(left), operator, right: Box::new(right) },
                scopes,
            ).0;
            let kind = operator.token_type;
            &&& kind == TokenType::Plus ==> r == Ok::<Val, LoxError>(Val::Number(double_sum(x, y)))
            &&& kind == TokenType::Minus ==> r == Ok::<Val, LoxError>(
                Val::Number(double_difference(x, y)),
            )
            &&& kind == TokenType::Star ==> r == Ok::<Val, LoxError>(
                Val::Number(double_product(x, y)),
            )
            &&& kind == TokenType::Slash ==> r == Ok::<Val, LoxError>(
                Val::Number(double_quotient(x, y)),
            )
            &&& kind == TokenType::Less ==> r == Ok::<Val, LoxError>(
                Val::Boolean(double_order(x, y) == Some(Ordering::Less)),
            )
            &&& kind == TokenType::Greater ==> r == Ok::<Val, LoxError>(
                Val::Boolean(double_order(x, y) == Some(Ordering::Greater)),
            )
        }),
{
}

/// `+` joins two strings, and is a runtime error at the operator on a
/// string and a number, either way round.
pub proof fn lemma_string_concatenation(operator: Token, a: Seq<char>, b: Seq<char>, n: u64)
    requires
        operator.token_type == TokenType::Plus,
    ensures
        binary_result(operator, Val::Str(a), Val::Str(b)) == Ok::<Val, LoxError>(Val::Str(a + b)),
        binary_result(operator, Val::Str(a), Val::Number(n)) == Err::<Val, LoxError>(
            runtime_error_at(operator, Problem::OperandsMustBeNumbersOrStrings),
        ),
        binary_result(operator, Val::Number(n), Val::Str(a)) == Err::<Val, LoxError>(
            runtime_error_at(operator, Problem::OperandsMustBeNumbersOrStrings),
        ),
{
}

/// `and` and `or` skip their right operand when the left one decides: the
/// whole expression evaluates exactly as its left operand does, whatever the
/// right operand is.
pub proof fn lemma_short_circuit(left: Expr, operator: Token, right: Expr, scopes: Scopes)
    requires
        eval(left, scopes).0 matches Ok(x) && short_circuits(operator, x),
    ensures
        eval(Expr::Logical { left: Box::new(left), operator, right: Box::new(right) }, scopes)
            == eval(left, scopes),
{
}

fn check_number_operand(operator: &Token, operand: &Value) -> (r: Result<u64, LoxError>)
    ensures
        match operand@ {
            Val::Number(n) => r == Ok::<u64, LoxError>(n),
            _ => r == Err::<u64, LoxError>(runtime_error_at(*operator, Problem::OperandMustBeNumber)),
        },
{
    match operand {
        Value::Number(n) => Ok(*n),
        _ => Err(LoxError::lox_runtime_error(operator, Problem::OperandMustBeNumber)),
    }
}

fn check_number_operands(operator: &Token, left: &Value, right: &Value) -> (r: Result<
    (u64, u64),
    LoxError,
>)
    ensures
        match (left@, right@) {
            (Val::Number(a), Val::Number(b)) => r == Ok::<(u64, u64), LoxError>((a, b)),
            _ => r == Err::<(u64, u64), LoxError>(
                runtime_error_at(*operator, Problem::OperandsMustBeNumbers),
            ),
        },
{
    match (left, right) {
        (Value::Number(a), Value::Number(b)) => Ok((*a, *b)),
        _ => Err(LoxError::lox_runtime_error(operator, Problem::OperandsMustBeNumbers)),
    }
}

fn is_equal(a: &Value, b: &Value) -> (r: bool)
    ensures
        r == values_equal(a@, b@),
{
    match (a, b) {
        (Value::Number(x), Value::Number(y)) => match compare(*x, *y) {
            Some(Ordering::Equal) => true,
            _ => false,
        },
        (Value::String(x), Value::String(y)) => *x == *y,
        (Value::Boolean(x), Value::Boolean(y)) => *x == *y,
        (Value::Nil, Value::Nil) => true,
        (Value::Callable(x), Value::Callable(y)) => *x == *y,
        _ => false,
    }
}

/// Runs statements against a stack of scopes, collecting printed lines. A
/// step budget bounds the number of loop iterations.
pub struct Interpreter {
    environment: Environment,
    output: Vec<String>,
    steps: u64,
}

impl View for Interpreter {
    type V = State;

    closed spec fn view(&self) -> State {
        State {
            scopes: self.environment@,
            output: self.output@.map_values(|s: String| s@),
            fuel: self.steps as nat,
        }
    }
}

impl Interpreter {
    pub closed spec fn wf(&self) -> bool {
        self.environment.wf()
    }

    /// A fresh global scope, no output, and the largest step budget.
    pub fn new() -> (r: Interpreter)
        ensures
            r.wf(),
            r@ == (State { scopes: seq![Map::empty()], output: seq![], fuel: u64::MAX as nat }),
    {
        Self::with_step_budget(u64::MAX)
    }

    /// A fresh global scope, no output, and at most `steps` loop iterations.
    pub fn with_step_budget(steps: u64) -> (r: Interpreter)
        ensures
            r.wf(),
            r@ == (State { scopes: seq![Map::empty()], output: seq![], fuel: steps as nat }),
    {
        let r = Interpreter { environment: Environment::new(None), output: Vec::new(), steps };
        assert(r@.output =~= seq![]);
        r
    }

    /// Hands out the lines printed so far and forgets them.
    pub fn take_output(&mut self) -> (r: Vec<String>)
        requires
            old(self).wf(),
        ensures
            final(self).wf(),
            r@.map_values(|s: String| s@) == old(self)@.output,
            final(self)@ == (State { output: seq![], ..old(self)@ }),
    {
        let mut out: Vec<String> = Vec::new();
        std::mem::swap(&mut out, &mut self.output);
        assert(self@.output =~= seq![]);
        out
    }

    /// The printed form of a value.
    pub fn stringify(&self, value: &Value) -> (r: String)
        ensures
            r@ == display(value@),
    {
        match value {
            Value::Number(n) => render(*n),
            Value::String(s) => s.clone(),
            Value::Boolean(b) => if *b {
                owned("true")
            } else {
                owned("false")
            },
            Value::Nil => owned("nil"),
            Value::Callable(name) => {
                let mut text = owned("<fn ");
                text.append(name.as_str());
                text.append(">");
                text
            },
        }
    }

    fn evaluate_literal(&self, value: &Literal) -> (r: Result<Value, LoxError>)
        ensures
            result_view(r) == Ok::<Val, LoxError>(literal_val(*value)),
    {
        Ok(
            match value {
                Literal::String(s) => Value::String(s.clone()),
                Literal::Number(n) => Value::Number(*n),
                Literal::Boolean(b) => Value::Boolean(*b),
                Literal::Nil => Value::Nil,
            },
        )
    }

    fn evaluate_variable(&self, name: &Token) -> (r: Result<Value, LoxError>)
        requires
            self.wf(),
        ensures
            result_view(r) == eval(Expr::Variable { name: *name }, self.environment@).0,
    {
        self.environment.get(name)
    }

    fn evaluate_unary(&mut self, expr: &Expr) -> (r: Result<Value, LoxError>)
        requires
            old(self).wf(),
            expr is Unary,
        ensures
            final(self).wf(),
            (result_view(r), final(self)@.scopes) == eval(*expr, old(self)@.scopes),
            final(self)@.output == old(self)@.output,
            final(self)@.fuel == old(self)@.fuel,
            final(self)@.scopes.len() == old(self)@.scopes.len(),
        decreases *expr, 1int,
    {
        let Expr::Unary { operator, right } = expr else { return Ok(Value::Nil) };
        let right_value = self.evaluate(right)?;
        match operator.token_type {
            TokenType::Minus => {
                let n = check_number_operand(operator, &right_value)?;
                Ok(Value::Number(negate(n)))
            },
            TokenType::Bang => Ok(Value::Boolean(!right_value.is_truthy())),
            _ => Err(LoxError::lox_runtime_error(operator, Problem::UnsupportedExpression)),
        }
    }

    /// The result of a binary operator on two values.
    fn binary_value(operator: &Token, left: Value, right: Value) -> (r: Result<Value, LoxError>)
        ensures
            result_view(r) == binary_result(*operator, left@, right@),
    {
        match operator.token_type {
            TokenType::EqualEqual => Ok(Value::Boolean(is_equal(&left, &right))),
            TokenType::BangEqual => Ok(Value::Boolean(!is_equal(&left, &right))),
            TokenType::Plus => match (left, right) {
                (Value::Number(a), Value::Number(b)) => Ok(Value::Number(sum(a, b))),
                (Value::String(a), Value::String(b)) => {
                    let mut joined = a;
                    joined.append(b.as_str());
                    Ok(Value::String(joined))
                },
                _ => Err(
                    LoxError::lox_runtime_error(operator, Problem::OperandsMustBeNumbersOrStrings),
                ),
            },
            TokenType::Minus => {
                let (a, b) = check_number_operands(operator, &left, &right)?;
                Ok(Value::Number(difference(a, b)))
            },
            TokenType::Star => {
                let (a, b) = check_number_operands(operator, &left, &right)?;
                Ok(Value::Number(product(a, b)))
            },
            TokenType::Slash => {
                let (a, b) = check_number_operands(operator, &left, &right)?;
                Ok(Value::Number(quotient(a, b)))
            },
            TokenType::Greater | TokenType::GreaterEqual | TokenType::Less | TokenType::LessEqual => {
                let (a, b) = check_number_operands(operator, &left, &right)?;
                let order = compare(a, b);
                let holds = match operator.token_type {
                    TokenType::Greater => matches!(order, Some(Ordering::Greater)),
                    TokenType::GreaterEqual => matches!(
                        order,
                        Some(Ordering::Greater) | Some(Ordering::Equal)
                    ),
                    TokenType::Less => matches!(order, Some(Ordering::Less)),
                    _ => matches!(order, Some(Ordering::Less) | Some(Ordering::Equal)),
                };
                Ok(Value::Boolean(holds))
            },
            _ => Err(LoxError::lox_runtime_error(operator, Problem::UnsupportedExpression)),
        }
    }

    fn evaluate_binary(&mut self, expr: &Expr) -> (r: Result<Value, LoxError>)
        requires
            old(self).wf(),
            expr is Binary,
        ensures
            final(self).wf(),
            (result_view(r), final(self)@.scopes) == eval(*expr, old(self)@.scopes),
            final(self)@.output == old(self)@.output,
            final(self)@.fuel == old(self)@.fuel,
            final(self)@.scopes.len() == old(self)@.scopes.len(),
        decreases *expr, 1int,
    {
        let Expr::Binary { left, operator, right } = expr else { return Ok(Value::Nil) };
        let left_value = self.evaluate(left)?;
        let right_value = self.evaluate(right)?;
        Self::binary_value(operator, left_value, right_value)
    }

    fn evaluate_assignment(&mut self, expr: &Expr) -> (r: Result<Value, LoxError>)
        requires
            old(self).wf(),
            expr is Assign,
        ensures
            final(self).wf(),
            (result_view(r), final(self)@.scopes) == eval(*expr, old(self)@.scopes),
            final(self)@.output == old(self)@.output,
            final(self)@.fuel == old(self)@.fuel,
            final(self)@.scopes.len() == old(self)@.scopes.len(),
        decreases *expr, 1int,
    {
        let Expr::Assign { name, value } = expr else { return Ok(Value::Nil) };
        let v = self.evaluate(value)?;
        self.environment.assign(name, v)
    }

    fn evaluate_logical(&mut self, expr: &Expr) -> (r: Result<Value, LoxError>)
        requires
            old(self).wf(),
            expr is Logical,
        ensures
            final(self).wf(),
            (result_view(r), final(self)@.scopes) == eval(*expr, old(self)@.scopes),
            final(self)@.output == old(self)@.output,
            final(self)@.fuel == old(self)@.fuel,
            final(self)@.scopes.len() == old(self)@.scopes.len(),
        decreases *expr, 1int,
    {
        let Expr::Logical { left, operator, right } = expr else { return Ok(Value::Nil) };
        let left_value = self.evaluate(left)?;
        match operator.token_type {
            TokenType::Or => {
                if left_value.is_truthy() {
                    return Ok(left_value);
                }
            },
            _ => {
                if !left_value.is_truthy() {
                    return Ok(left_value);
                }
            },
        }
        self.evaluate(right)
    }

    fn evaluate_call_expr(&mut self, expr: &Expr) -> (r: Result<Value, LoxError>)
        requires
            old(self).wf(),
            expr is Call,
        ensures
            final(self).wf(),
            (result_view(r), final(self)@.scopes) == eval(*expr, old(self)@.scopes),
            final(self)@.output == old(self)@.output,
            final(self)@.fuel == old(self)@.fuel,
            final(self)@.scopes.len() == old(self)@.scopes.len(),
        decreases *expr, 1int,
    {
        let Expr::Call { callee, token, arguments } = expr else { return Ok(Value::Nil) };
        assert(*expr == Expr::Call { callee: *callee, token: *token, arguments: *arguments });
        let callee_value = self.evaluate(callee)?;
        let ghost start = self.environment@;
        let mut i: usize = 0;
        while i < arguments.len()
            invariant
                self.wf(),
                *expr == (Expr::Call { callee: *callee, token: *token, arguments: *arguments }),
                eval(**callee, old(self)@.scopes) == (Ok::<Val, LoxError>(callee_value@), start),
                i <= arguments@.len(),
                eval_arguments(*expr, 0, start) == eval_arguments(*expr, i as int, self.environment@),
                self@.output == old(self)@.output,
                self@.fuel == old(self)@.fuel,
                self@.scopes.len() == old(self)@.scopes.len(),
            decreases arguments@.len() - i,
        {
            proof {
                assert(decreases_to!(*arguments => arguments[i as int]));
                assert(decreases_to!(*expr => *arguments));
                assert(decreases_to!(*expr => arguments[i as int]));
            }
            let ghost before = self@.scopes;
            let r = self.evaluate(&arguments[i]);
            match r {
                Err(e) => {
                    assert(eval_arguments(*expr, i as int, before) == (Err::<(), LoxError>(e), self@.scopes));
                    assert(eval_arguments(*expr, 0, start) == (Err::<(), LoxError>(e), self@.scopes));
                    return Err(e);
                },
                Ok(_) => {},
            }
            i = i + 1;
        }
        match callee_value {
            Value::Callable(_) => Err(LoxError::lox_runtime_error(token, Problem::CallUnavailable)),
            _ => Err(LoxError::lox_runtime_error(token, Problem::NotCallable)),
        }
    }

    /// Evaluates an expression: its value or the first runtime error. Only
    /// assignments change the scopes.
    pub fn evaluate(&mut self, expr: &Expr) -> (r: Result<Value, LoxError>)
        requires
            old(self).wf(),
        ensures
            final(self).wf(),
            (result_view(r), final(self)@.scopes) == eval(*expr, old(self)@.scopes),
            final(self)@.output == old(self)@.output,
            final(self)@.fuel == old(self)@.fuel,
            final(self)@.scopes.len() == old(self)@.scopes.len(),
        decreases *expr, 2int,
    {
        match expr {
            Expr::Assign { .. } => self.evaluate_assignment(expr),
            Expr::Binary { .. } => self.evaluate_binary(expr),
            Expr::Call { .. } => self.evaluate_call_expr(expr),
            Expr::Grouping { expression } => self.evaluate(expression),
            Expr::Literal { value } => self.evaluate_literal(value),
            Expr::Logical { .. } => self.evaluate_logical(expr),
            Expr::Unary { .. } => self.evaluate_unary(expr),
            Expr::Variable { name } => self.evaluate_variable(name),
            Expr::Get { name, .. } => Err(
                LoxError::lox_runtime_error(name, Problem::UnsupportedExpression),
            ),
            Expr::SetProperty { name, .. } => Err(
                LoxError::lox_runtime_error(name, Problem::UnsupportedExpression),
            ),
            Expr::Super { keyword, .. } => Err(
                LoxError::lox_runtime_error(keyword, Problem::UnsupportedExpression),
            ),
            Expr::This { keyword } => Err(
                LoxError::lox_runtime_error(keyword, Problem::UnsupportedExpression),
            ),
        }
    }

    fn execute_expression(&mut self, expr: &Expr) -> (r: Result<(), LoxError>)
        requires
            old(self).wf(),
        ensures
            final(self).wf(),
            (r, final(self)@) == execution(StmtKind::Expression { expr: *expr }, old(self)@),
            final(self)@.scopes.len() == old(self)@.scopes.len(),
    {
        self.evaluate(expr)?;
        Ok(())
    }

    fn execute_print(&mut self, expr: &Expr) -> (r: Result<(), LoxError>)
        requires
            old(self).wf(),
        ensures
            final(self).wf(),
            (r, final(self)@) == execution(StmtKind::Print { expr: *expr }, old(self)@),
            final(self)@.scopes.len() == old(self)@.scopes.len(),
    {
        let value = self.evaluate(expr)?;
        let text = self.stringify(&value);
        self.output.push(text);
        assert(self@.output =~= old(self)@.output.push(display(value@)));
        Ok(())
    }

    fn execute_var(&mut self, name: &Token, initializer: &Option<Expr>) -> (r: Result<(), LoxError>)
        requires
            old(self).wf(),
        ensures
            final(self).wf(),
            (r, final(self)@) == execution(
                StmtKind::Var { name: *name, initializer: *initializer },
                old(self)@,
            ),
            final(self)@.scopes.len() == old(self)@.scopes.len(),
    {
        let value = match initializer {
            None => Value::Nil,
            Some(init) => self.evaluate(init)?,
        };
        proof {
            self.environment.lemma_nonempty();
        }
        self.environment.define(name.lexeme.clone(), value)?;
        Ok(())
    }

    fn execute_block(&mut self, stmt: &StmtKind) -> (r: Result<(), LoxError>)
        requires
            old(self).wf(),
            stmt is Block,
        ensures
            final(self).wf(),
            (r, final(self)@) == execution(*stmt, old(self)@),
            final(self)@.scopes.len() == old(self)@.scopes.len(),
            final(self)@.fuel <= old(self)@.fuel,
        decreases old(self)@.fuel, *stmt, stmt_width(*stmt),
    {
        let StmtKind::Block { statements } = stmt else { return Ok(()) };
        assert(*stmt == StmtKind::Block { statements: *statements });
        proof {
            self.environment.lemma_nonempty();
        }
        self.environment.push_scope();
        let ghost inner = self@;
        assert(inner == with_scopes(old(self)@, old(self)@.scopes.push(Map::empty())));
        let mut i: usize = 0;
        while i < statements.len()
            invariant
                self.wf(),
                *stmt == (StmtKind::Block { statements: *statements }),
                i <= statements@.len(),
                self.steps <= old(self).steps,
                self@.scopes.len() == old(self)@.scopes.len() + 1,
                old(self)@.scopes.len() >= 1,
                inner == with_scopes(old(self)@, old(self)@.scopes.push(Map::empty())),
                block_execution(*stmt, 0, inner) == block_execution(*stmt, i as int, self@),
            decreases statements@.len() - i,
        {
            proof {
                assert(decreases_to!(*statements => statements[i as int]));
                assert(decreases_to!(*stmt => *statements));
                assert(decreases_to!(*stmt => statements[i as int]));
            }
            let ghost before = self@;
            let r = self.execute(&statements[i]);
            match r {
                Err(e) => {
                    assert(block_execution(*stmt, i as int, before) == (Err::<(), LoxError>(e), self@));
                    self.environment.pop_scope();
                    return Err(e);
                },
                Ok(()) => {},
            }
            i = i + 1;
        }
        self.environment.pop_scope();
        Ok(())
    }

    fn execute_if(&mut self, stmt: &StmtKind) -> (r: Result<(), LoxError>)
        requires
            old(self).wf(),
            stmt is If,
        ensures
            final(self).wf(),
            (r, final(self)@) == execution(*stmt, old(self)@),
            final(self)@.scopes.len() == old(self)@.scopes.len(),
            final(self)@.fuel <= old(self)@.fuel,
        decreases old(self)@.fuel, *stmt, 0int,
    {
        let StmtKind::If { condition, then_branch, else_branch } = stmt else { return Ok(()) };
        if self.evaluate(condition)?.is_truthy() {
            self.execute(then_branch)
        } else {
            match else_branch {
                Some(b) => self.execute(b),
                None => Ok(()),
            }
        }
    }

    fn execute_while(&mut self, stmt: &StmtKind) -> (r: Result<(), LoxError>)
        requires
            old(self).wf(),
            stmt is While,
        ensures
            final(self).wf(),
            (r, final(self)@) == execution(*stmt, old(self)@),
            final(self)@.scopes.len() == old(self)@.scopes.len(),
            final(self)@.fuel <= old(self)@.fuel,
        decreases old(self)@.fuel, *stmt, 0int,
    {
        let StmtKind::While { condition, body } = stmt else { return Ok(()) };
        assert(*stmt == (StmtKind::While { condition: *condition, body: *body }));
        loop
            invariant
                self.wf(),
                *stmt == (StmtKind::While { condition: *condition, body: *body }),
                self.steps <= old(self).steps,
                self@.scopes.len() == old(self)@.scopes.len(),
                loop_execution(*stmt, old(self)@) == loop_execution(*stmt, self@),
            decreases self.steps,
        {
            let c = self.evaluate(condition)?;
            if !c.is_truthy() {
                return Ok(());
            }
            if self.steps == 0 {
                return Err(LoxError::BudgetExhausted);
            }
            self.steps = self.steps - 1;
            self.execute(body)?;
        }
    }

    /// Runs one statement: success or the first runtime error. A block's
    /// scope is left again on every exit.
    pub fn execute(&mut self, stmt: &StmtKind) -> (r: Result<(), LoxError>)
        requires
            old(self).wf(),
        ensures
            final(self).wf(),
            (r, final(self)@) == execution(*stmt, old(self)@),
            final(self)@.scopes.len() == old(self)@.scopes.len(),
            final(self)@.fuel <= old(self)@.fuel,
        decreases old(self)@.fuel, *stmt, stmt_width(*stmt) + 1,
    {
        match stmt {
            StmtKind::Expression { expr } => self.execute_expression(expr),
            StmtKind::Print { expr } => self.execute_print(expr),
            StmtKind::Var { name, initializer } => self.execute_var(name, initializer),
            StmtKind::Block { .. } => self.execute_block(stmt),
            StmtKind::If { .. } => self.execute_if(stmt),
            StmtKind::While { .. } => self.execute_while(stmt),
        }
    }

    /// Runs statements in order, stopping at the first runtime error.
    pub fn interpret(&mut self, stmts: Vec<StmtKind>) -> (r: Result<(), LoxError>)
        requires
            old(self).wf(),
        ensures
            final(self).wf(),
            (r, final(self)@) == program_execution(stmts@, 0, old(self)@),
    {
        let mut i: usize = 0;
        while i < stmts.len()
            invariant
                self.wf(),
                i <= stmts@.len(),
                program_execution(stmts@, 0, old(self)@) == program_execution(
                    stmts@,
                    i as int,
                    self@,
                ),
            decreases stmts@.len() - i,
        {
            self.execute(&stmts[i])?;
            i = i + 1;
        }
        Ok(())
    }
}

impl Default for Interpreter {
    fn default() -> (r: Interpreter)
        ensures
            r.wf(),
            r@ == (State { scopes: seq![Map::empty()], output: seq![], fuel: u64::MAX as nat }),
    {
        Interpreter::new()
    }
}

} // verus!
