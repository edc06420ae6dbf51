//! Running source text: scanning, parsing and evaluation, with the flags a
//! caller turns into an exit status.
use crate::error::{error_views, ErrorModel, LoxError};
use crate::interpreter::{program_execution, Interpreter, State};
use crate::parser::{program_from, Parser};
use crate::scanner::{scan, scan_errors, Scanner};
use crate::stmt::{stmts_view, StmtKind};
use crate::value::owned;
use vstd::prelude::*;

verus! {

/// The state a run starts from: one empty global scope, no output, the
/// largest step budget.
pub open spec fn fresh_state() -> State {
    State { scopes: seq![Map::empty()], output: seq![], fuel: u64::MAX as nat }
}

/// The lexical errors of a source text, then its parse errors.
pub open spec fn source_errors(src: Seq<char>) -> Seq<ErrorModel> {
    error_views(scan_errors(src)) + program_from(scan(src), 0).1
}

/// What a run printed and the errors it reported.
#[derive(Debug)]
pub struct Report {
    pub output: Vec<String>,
    pub errors: Vec<LoxError>,
}

/// Runs scripts, remembering whether a parse or a runtime error was seen.
pub struct Reef {
    had_error: bool,
    had_runtime_error: bool,
}

impl Reef {
    pub closed spec fn error_seen(&self) -> bool {
        self.had_error
    }

    pub closed spec fn runtime_error_seen(&self) -> bool {
        self.had_runtime_error
    }

    pub fn new() -> (r: Reef)
        ensures
            !r.error_seen(),
            !r.runtime_error_seen(),
    {
        Reef { had_error: false, had_runtime_error: false }
    }

    /// Whether a lexical or parse error was seen.
    pub fn had_error(&self) -> (r: bool)
        ensures
            r == self.error_seen(),
    {
        self.had_error
    }

    /// Whether a runtime error was seen.
    pub fn had_runtime_error(&self) -> (r: bool)
        ensures
            r == self.runtime_error_seen(),
    {
        self.had_runtime_error
    }

    /// Forgets the errors seen, as between the lines of an interactive
    /// session.
    pub fn reset(&mut self)
        ensures
            !final(self).error_seen(),
            !final(self).runtime_error_seen(),
    {
        self.had_error = false;
        self.had_runtime_error = false;
    }

    /// Runs a script. With lexical or parse errors nothing runs and they are
    /// all reported; otherwise the program runs on a fresh global scope until
    /// it ends or meets its first runtime error.
    pub fn run(&mut self, text: &str) -> (r: Report)
        requires
            text@.len() < usize::MAX,
        ensures
            ({
                let errors = source_errors(text@);
                if errors.len() > 0 {
                    &&& error_views(r.errors@) == errors
                    &&& r.output@.len() == 0
                    &&& final(self).error_seen()
                    &&& final(self).runtime_error_seen() == old(self).runtime_error_seen()
                } else {
                    &&& final(self).error_seen() == old(self).error_seen()
                    &&& exists|program: Seq<StmtKind>|
                        {
                            &&& stmts_view(program) == program_from(scan(text@), 0).0
                            &&& #[trigger] program_execution(program, 0, fresh_state()).1.output
                                == r.output@.map_values(|s: String| s@)
                            &&& match program_execution(program, 0, fresh_state()).0 {
                                Ok(_) => {
                                    &&& r.errors@.len() == 0
                                    &&& final(self).runtime_error_seen()
                                        == old(self).runtime_error_seen()
                                },
                                Err(e) => {
                                    &&& error_views(r.errors@) == seq![e@]
                                    &&& final(self).runtime_error_seen()
                                },
                            }
                        }
                }
            }),
    {
        let (lexical, parsed) = front(text);
        match parsed {
            Err(parse_errors) => {
                let errors = joined(lexical, parse_errors);
                self.had_error = true;
                Report { output: Vec::new(), errors }
            },
            Ok(stmts) => {
                if lexical.len() > 0 {
                    self.had_error = true;
                    return Report { output: Vec::new(), errors: lexical };
                }
                let (output, result) = execute_program(stmts);
                match result {
                    Ok(()) => Report { output, errors: Vec::new() },
                    Err(e) => {
                        self.had_runtime_error = true;
                        let mut errors = Vec::new();
                        let ghost ev = e@;
                        errors.push(e);
                        assert(error_views(errors@) =~= seq![ev]);
                        Report { output, errors }
                    },
                }
            },
        }
    }
}

/// Scans and parses a source text: the lexical errors, and the program or
/// the parse errors.
fn front(text: &str) -> (r: (Vec<LoxError>, Result<Vec<StmtKind>, Vec<LoxError>>))
    requires
        text@.len() < usize::MAX,
    ensures
        error_views(r.0@) == error_views(scan_errors(text@)),
        ({
            let (program, errors) = program_from(scan(text@), 0);
            if errors.len() == 0 {
                r.1 matches Ok(v) && stmts_view(v@) == program
            } else {
                r.1 matches Err(es) && error_views(es@) == errors
            }
        }),
{
    let mut scanner = Scanner::new(owned(text));
    let tokens = scanner.scan_tokens();
    let errors = scanner.take_errors();
    let mut parser = Parser::new(tokens);
    let parsed = parser.parse();
    (errors, parsed)
}

/// Runs a program on a fresh interpreter: what it printed, and how it
/// ended.
fn execute_program(stmts: Vec<StmtKind>) -> (r: (Vec<String>, Result<(), LoxError>))
    ensures
        ({
            let (res, st) = program_execution(stmts@, 0, fresh_state());
            &&& r.0@.map_values(|s: String| s@) == st.output
            &&& r.1 == res
        }),
{
    let mut interpreter = Interpreter::new();
    let result = interpreter.interpret(stmts);
    let output = interpreter.take_output();
    (output, result)
}

impl Default for Reef {
    fn default() -> (r: Reef)
        ensures
            !r.error_seen(),
            !r.runtime_error_seen(),
    {
        Reef::new()
    }
}

/// `first` followed by copies of `second`.
fn joined(first: Vec<LoxError>, second: Vec<LoxError>) -> (r: Vec<LoxError>)
    ensures
        error_views(r@) == error_views(first@) + error_views(second@),
{
    let mut errors = first;
    let mut i: usize = 0;
    while i < second.len()
        invariant
            i <= second@.len(),
            errors@ == first@ + second@.subrange(0, i as int),
        decreases second@.len() - i,
    {
        let e = copy_error(&second[i]);
        errors.push(e);
        assert(second@.subrange(0, i + 1) =~= second@.subrange(0, i as int).push(second@[i as int]));
        i = i + 1;
    }
    assert(second@.subrange(0, i as int) =~= second@);
    assert(error_views(errors@) =~= error_views(first@) + error_views(second@));
    errors
}

/// An identical copy of an error.
fn copy_error(e: &LoxError) -> (r: LoxError)
    ensures
        r == *e,
{
    match e {
        LoxError::ParseError { line, site, problem } => LoxError::ParseError {
            line: *line,
            site: match site {
                crate::error::Site::Line => crate::error::Site::Line,
                crate::error::Site::End => crate::error::Site::End,
                crate::error::Site::Lexeme(s) => crate::error::Site::Lexeme(s.clone()),
            },
            problem: *problem,
        },
        LoxError::RuntimeError { line, lexeme, problem } => LoxError::RuntimeError {
            line: *line,
            lexeme: lexeme.clone(),
            problem: *problem,
        },
        LoxError::BudgetExhausted => LoxError::BudgetExhausted,
    }
}

} // verus!
