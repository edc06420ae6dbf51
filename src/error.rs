//! The two kinds of error: parse errors (lexical and syntactic) and runtime
//! errors.
use crate::token::{Token, TokenModel, TokenType};
use vstd::prelude::*;

verus! {

/// What went wrong.
#[derive(Clone, Copy, Debug, PartialEq, Eq, Structural)]
pub enum Problem {
    // Lexical.
    UnexpectedCharacter,
    UnterminatedString,
    InvalidNumber,
    // Syntactic.
    ExpectExpression,
    ExpectRightParenAfterExpression,
    ExpectRightParenAfterArguments,
    TooManyArguments,
    InvalidAssignmentTarget,
    ExpectVariableName,
    ExpectSemicolonAfterVariable,
    ExpectSemicolonAfterValue,
    ExpectSemicolonAfterExpression,
    ExpectRightBraceAfterBlock,
    ExpectLeftParenAfterIf,
    ExpectRightParenAfterIfCondition,
    ExpectLeftParenAfterWhile,
    ExpectRightParenAfterCondition,
    ExpectLeftParenAfterFor,
    ExpectSemicolonAfterLoopCondition,
    ExpectRightParenAfterForClauses,
    // Runtime.
    OperandMustBeNumber,
    OperandsMustBeNumbers,
    OperandsMustBeNumbersOrStrings,
    UndefinedVariable,
    NotCallable,
    CallUnavailable,
    UnsupportedExpression,
}

impl Problem {
    /// The message shown to a user.
    pub fn message(&self) -> &'static str {
        match self {
            Problem::UnexpectedCharacter => "Unexpected character.",
            Problem::UnterminatedString => "Unterminated string.",
            Problem::InvalidNumber => "Invalid number.",
            Problem::ExpectExpression => "Expect expression.",
            Problem::ExpectRightParenAfterExpression => "Expect ')' after expression.",
            Problem::ExpectRightParenAfterArguments => "Expect ')' after arguments.",
            Problem::TooManyArguments => "Can't have more than 255 arguments.",
            Problem::InvalidAssignmentTarget => "Invalid assignment target.",
            Problem::ExpectVariableName => "Expect variable name.",
            Problem::ExpectSemicolonAfterVariable => "Expect ';' after variable declaration.",
            Problem::ExpectSemicolonAfterValue => "Expect ';' after value.",
            Problem::ExpectSemicolonAfterExpression => "Expect ';' after expression.",
            Problem::ExpectRightBraceAfterBlock => "Expect '}' after block.",
            Problem::ExpectLeftParenAfterIf => "Expect '(' after 'if'.",
            Problem::ExpectRightParenAfterIfCondition => "Expect ')' after if condition.",
            Problem::ExpectLeftParenAfterWhile => "Expect '(' after 'while'.",
            Problem::ExpectRightParenAfterCondition => "Expect ')' after condition.",
            Problem::ExpectLeftParenAfterFor => "Expect '(' after 'for'.",
            Problem::ExpectSemicolonAfterLoopCondition => "Expect ';' after loop condition.",
            Problem::ExpectRightParenAfterForClauses => "Expect ')' after for clauses.",
            Problem::OperandMustBeNumber => "Operand must be a number.",
            Problem::OperandsMustBeNumbers => "Operands must be numbers.",
            Problem::OperandsMustBeNumbersOrStrings =>
                "Operands must be two numbers or two strings.",
            Problem::UndefinedVariable => "Undefined variable.",
            Problem::NotCallable => "Can only call functions and classes.",
            Problem::CallUnavailable => "Calls are not available in this interpreter.",
            Problem::UnsupportedExpression => "Expression kind is not supported.",
        }
    }
}

/// Where in the source a parse error was found.
#[derive(Debug, PartialEq)]
pub enum Site {
    /// Only the line is known (a lexical error).
    Line,
    /// At the end of the input.
    End,
    /// At the token with this text.
    Lexeme(String),
}

#[derive(Debug, PartialEq)]
pub enum LoxError {
    /// A lexical or syntactic error.
    ParseError { line: usize, site: Site, problem: Problem },
    /// An error while evaluating, at the token with this text.
    RuntimeError { line: usize, lexeme: String, problem: Problem },
    /// A loop was about to start an iteration with the step budget spent.
    BudgetExhausted,
}

/// The mathematical form of a site.
pub enum SiteModel {
    Line,
    End,
    Lexeme(Seq<char>),
}

/// The mathematical form of an error.
pub enum ErrorModel {
    ParseError { line: nat, site: SiteModel, problem: Problem },
    RuntimeError { line: nat, lexeme: Seq<char>, problem: Problem },
    BudgetExhausted,
}

impl View for Site {
    type V = SiteModel;

    open spec fn view(&self) -> SiteModel {
        match self {
            Site::Line => SiteModel::Line,
            Site::End => SiteModel::End,
            Site::Lexeme(s) => SiteModel::Lexeme(s@),
        }
    }
}

impl View for LoxError {
    type V = ErrorModel;

    open spec fn view(&self) -> ErrorModel {
        match self {
            LoxError::ParseError { line, site, problem } => ErrorModel::ParseError {
                line: *line as nat,
                site: site@,
                problem: *problem,
            },
            LoxError::RuntimeError { line, lexeme, problem } => ErrorModel::RuntimeError {
                line: *line as nat,
                lexeme: lexeme@,
                problem: *problem,
            },
            LoxError::BudgetExhausted => ErrorModel::BudgetExhausted,
        }
    }
}

pub open spec fn error_views(s: Seq<LoxError>) -> Seq<ErrorModel> {
    s.map_values(|e: LoxError| e@)
}

pub broadcast proof fn lemma_errors_assoc(a: Seq<ErrorModel>, b: Seq<ErrorModel>, c: Seq<ErrorModel>)
    ensures
        #[trigger] ((a + b) + c) == a + (b + c),
{
    assert((a + b) + c =~= a + (b + c));
}

pub broadcast proof fn lemma_errors_empty(a: Seq<ErrorModel>)
    ensures
        #[trigger] (a + Seq::<ErrorModel>::empty()) == a,
        #[trigger] (Seq::<ErrorModel>::empty() + a) == a,
{
    assert(a + Seq::<ErrorModel>::empty() =~= a);
    assert(Seq::<ErrorModel>::empty() + a =~= a);
}

/// The parse error reported at a token: "at end" for the end of input.
pub open spec fn parse_error_at(token: TokenModel, problem: Problem) -> ErrorModel {
    ErrorModel::ParseError {
        line: token.line,
        site: if token.token_type == TokenType::Eof {
            SiteModel::End
        } else {
            SiteModel::Lexeme(token.lexeme)
        },
        problem,
    }
}

/// The parse error reported at a token.
pub open spec fn error_at(token: Token, problem: Problem) -> LoxError {
    LoxError::ParseError {
        line: token.line,
        site: if token.token_type == TokenType::Eof {
            Site::End
        } else {
            Site::Lexeme(token.lexeme)
        },
        problem,
    }
}

/// The runtime error reported at a token.
pub open spec fn runtime_error_at(token: Token, problem: Problem) -> LoxError {
    LoxError::RuntimeError { line: token.line, lexeme: token.lexeme, problem }
}

impl LoxError {
    /// A lexical error on a line.
    pub fn lox_error(line: usize, problem: Problem) -> (r: LoxError)
        ensures
            r == (LoxError::ParseError { line, site: Site::Line, problem }),
    {
        LoxError::ParseError { line, site: Site::Line, problem }
    }

    /// A syntactic error at a token: "at end" for the end of input, else at
    /// the token's text.
    pub fn lox_error_at_line(token: &Token, problem: Problem) -> (r: LoxError)
        ensures
            r == error_at(*token, problem),
            r@ == parse_error_at(token@, problem),
    {
        let site = if token.token_type == TokenType::Eof {
            Site::End
        } else {
            Site::Lexeme(token.lexeme.clone())
        };
        LoxError::ParseError { line: token.line, site, problem }
    }

    /// A runtime error at a token.
    pub fn lox_runtime_error(token: &Token, problem: Problem) -> (r: LoxError)
        ensures
            r == runtime_error_at(*token, problem),
    {
        LoxError::RuntimeError { line: token.line, lexeme: token.lexeme.clone(), problem }
    }

    pub open spec fn is_parse_error(&self) -> bool {
        self is ParseError
    }

    /// Whether this is a lexical or syntactic error.
    pub fn is_parse(&self) -> (r: bool)
        ensures
            r == self.is_parse_error(),
    {
        match self {
            LoxError::ParseError { .. } => true,
            _ => false,
        }
    }
}

} // verus!
