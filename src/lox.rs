//! Reading a single expression from source text.
use crate::error::{error_views, LoxError};
use crate::expr::Expr;
use crate::parser::{expression, Parser};
use crate::scanner::{scan, scan_errors, Scanner};
use crate::value::owned;
use vstd::prelude::*;

verus! {

pub struct Lox {}

impl Lox {
    pub fn new() -> Lox {
        Lox {  }
    }

    /// Scans a text and parses one expression from its start: the lexical
    /// errors and those reported while parsing went on, and the expression or
    /// the error that stopped parsing.
    pub fn run(&self, text: &str) -> (r: (Vec<LoxError>, Result<Expr, LoxError>))
        requires
            text@.len() < usize::MAX,
        ensures
            error_views(r.0@) == error_views(scan_errors(text@)) + expression(scan(text@), 0).1,
            match expression(scan(text@), 0).0 {
                Ok((e, _)) => r.1 matches Ok(x) && x@ == e,
                Err((err, _)) => r.1 matches Err(x) && x@ == err,
            },
    {
        let mut scanner = Scanner::new(owned(text));
        let tokens = scanner.scan_tokens();
        let mut errors = scanner.take_errors();
        let mut parser = Parser::new(tokens);
        let parsed = parser.expression();
        let mut reported = parser.take_errors();
        let ghost first = error_views(errors@);
        let ghost second = error_views(reported@);
        errors.append(&mut reported);
        assert(error_views(errors@) =~= first + second);
        (errors, parsed)
    }
}

} // verus!
