use reef::ast_printer::AstPrinter;
use reef::environment::Environment;
use reef::error::{LoxError, Problem, Site};
use reef::expr::{evaluate, Expr};
use reef::interpreter::Interpreter;
use reef::lox::Lox;
use reef::parser::Parser;
use reef::reef::{Reef, Report};
use reef::scanner::Scanner;
use reef::stmt::{Stmt, StmtKind};
use reef::token::{Literal, Token, TokenType};
use reef::value::Value;

fn run(text: &str) -> Report {
    Reef::new().run(text)
}

fn eval_text(text: &str) -> Result<Value, LoxError> {
    let (lexical, parsed) = Lox::new().run(text);
    assert!(lexical.is_empty());
    evaluate(&parsed.expect("expression parses"))
}

fn number(x: f64) -> Value {
    Value::Number(x.to_bits())
}

fn kinds(text: &str) -> Vec<TokenType> {
    let mut scanner = Scanner::new(text.to_string());
    scanner.scan_tokens().iter().map(|t| t.token_type).collect()
}

fn parse_problems(text: &str) -> Vec<Problem> {
    run(text)
        .errors
        .iter()
        .map(|e| match e {
            LoxError::ParseError { problem, .. } => *problem,
            other => panic!("not a parse error: {:?}", other),
        })
        .collect()
}

fn runtime_problem(text: &str) -> Problem {
    let report = run(text);
    assert_eq!(report.errors.len(), 1);
    match &report.errors[0] {
        LoxError::RuntimeError { problem, .. } => *problem,
        other => panic!("not a runtime error: {:?}", other),
    }
}

#[test]
fn test_output() {
    assert_eq!(1, 1)
}

#[test]
fn arithmetic_follows_precedence() {
    assert_eq!(eval_text("1 + 2 * 3"), Ok(number(7.0)));
    assert_eq!(eval_text("(1 + 2) * 3"), Ok(number(9.0)));
    assert_eq!(eval_text("8 / 2 / 2"), Ok(number(2.0)));
    assert_eq!(eval_text("10 - 4 - 3"), Ok(number(3.0)));
}

#[test]
fn arithmetic_matches_binary64() {
    assert_eq!(eval_text("0.1 + 0.2"), Ok(number(0.1f64 + 0.2f64)));
    assert_eq!(eval_text("1 / 3"), Ok(number(1.0f64 / 3.0f64)));
    assert_eq!(eval_text("-2.5 * 4"), Ok(number(-10.0)));
    assert_eq!(eval_text("2.5"), Ok(number(2.5)));
}

#[test]
fn division_by_zero_is_not_an_error() {
    assert_eq!(eval_text("1 / 0"), Ok(number(f64::INFINITY)));
    match eval_text("0 / 0") {
        Ok(Value::Number(bits)) => assert!(f64::from_bits(bits).is_nan()),
        other => panic!("unexpected {:?}", other),
    }
}

#[test]
fn string_concatenation() {
    assert_eq!(eval_text("\"a\" + \"b\""), Ok(Value::String("ab".to_string())));
    match eval_text("\"a\" + 1") {
        Err(LoxError::RuntimeError { problem, lexeme, line }) => {
            assert_eq!(problem, Problem::OperandsMustBeNumbersOrStrings);
            assert_eq!(lexeme, "+");
            assert_eq!(line, 1);
        },
        other => panic!("unexpected {:?}", other),
    }
}

#[test]
fn equality_is_kind_sensitive() {
    assert_eq!(eval_text("1 == 1"), Ok(Value::Boolean(true)));
    assert_eq!(eval_text("1 == \"1\""), Ok(Value::Boolean(false)));
    assert_eq!(eval_text("nil == nil"), Ok(Value::Boolean(true)));
    assert_eq!(eval_text("nil == false"), Ok(Value::Boolean(false)));
    assert_eq!(eval_text("\"x\" != \"x\""), Ok(Value::Boolean(false)));
    assert_eq!(eval_text("0 / 0 == 0 / 0"), Ok(Value::Boolean(false)));
}

#[test]
fn comparisons_and_unary() {
    assert_eq!(eval_text("1 < 2"), Ok(Value::Boolean(true)));
    assert_eq!(eval_text("2 <= 2"), Ok(Value::Boolean(true)));
    assert_eq!(eval_text("1 > 2"), Ok(Value::Boolean(false)));
    assert_eq!(eval_text("3 >= 4"), Ok(Value::Boolean(false)));
    assert_eq!(eval_text("!nil"), Ok(Value::Boolean(true)));
    assert_eq!(eval_text("!0"), Ok(Value::Boolean(false)));
    assert_eq!(eval_text("-(1 + 2)"), Ok(number(-3.0)));
}

#[test]
fn short_circuit_skips_right_operand() {
    assert_eq!(eval_text("false and (1/0)"), Ok(Value::Boolean(false)));
    assert_eq!(eval_text("nil or \"x\""), Ok(Value::String("x".to_string())));
    assert_eq!(eval_text("1 or undefined"), Ok(number(1.0)));
    let report = run("var a = 0; false and (a = 1); true or (a = 2); print a;");
    assert!(report.errors.is_empty());
    assert_eq!(report.output, vec!["0".to_string()]);
}

#[test]
fn block_scoping() {
    let report = run("var a = 1; { var b = 2; a = 3; } print a;");
    assert!(report.errors.is_empty());
    assert_eq!(report.output, vec!["3".to_string()]);
    assert_eq!(runtime_problem("{ var b = 2; } print b;"), Problem::UndefinedVariable);
    let shadow = run("var a = \"outer\"; { var a = \"inner\"; print a; } print a;");
    assert_eq!(shadow.output, vec!["inner".to_string(), "outer".to_string()]);
}

#[test]
fn for_loop_prints_in_order() {
    let report = run("for (var i = 0; i < 3; i = i + 1) print i;");
    assert!(report.errors.is_empty());
    assert_eq!(report.output, vec!["0".to_string(), "1".to_string(), "2".to_string()]);
}

#[test]
fn while_and_if() {
    let report = run("var n = 0; while (n < 2) { if (n == 0) print \"zero\"; else print \"one\"; n = n + 1; }");
    assert_eq!(report.output, vec!["zero".to_string(), "one".to_string()]);
}

#[test]
fn two_malformed_statements_give_two_errors() {
    let problems = parse_problems("var = 1; print ;");
    assert_eq!(problems, vec![Problem::ExpectVariableName, Problem::ExpectExpression]);
    let mut reef = Reef::new();
    reef.run("1 +; 2 *;");
    assert!(reef.had_error());
    assert!(!reef.had_runtime_error());
}

#[test]
fn reparsing_gives_the_same_tree() {
    let text = "var x = (1 + 2) * -3; { print x == 9 or false; } while (x < 0) x = x + 1;";
    let parse = || {
        let mut scanner = Scanner::new(text.to_string());
        let tokens = scanner.scan_tokens();
        Parser::new(tokens).parse().expect("parses")
    };
    assert_eq!(parse(), parse());
}

#[test]
fn scanner_tokens() {
    assert_eq!(
        kinds("var x = 1.5; // comment\n!= <= >= == ! < > / \"s\" _id été"),
        vec![
            TokenType::Var,
            TokenType::Identifier,
            TokenType::Equal,
            TokenType::Number,
            TokenType::Semicolon,
            TokenType::BangEqual,
            TokenType::LessEqual,
            TokenType::GreaterEqual,
            TokenType::EqualEqual,
            TokenType::Bang,
            TokenType::Less,
            TokenType::Greater,
            TokenType::Slash,
            TokenType::String,
            TokenType::Identifier,
            TokenType::Identifier,
            TokenType::Eof,
        ]
    );
    assert_eq!(kinds("1."), vec![TokenType::Number, TokenType::Dot, TokenType::Eof]);
    assert_eq!(kinds(""), vec![TokenType::Eof]);
}

#[test]
fn scanner_literals_and_lines() {
    let mut scanner = Scanner::new("\"a\nb\" 12.25\nand".to_string());
    let tokens = scanner.scan_tokens();
    assert_eq!(tokens[0].lexeme, "\"a\nb\"");
    assert_eq!(tokens[0].literal, Some(Literal::String("a\nb".to_string())));
    assert_eq!(tokens[0].line, 2);
    assert_eq!(tokens[1].literal, Some(Literal::Number(12.25f64.to_bits())));
    assert_eq!(tokens[2].token_type, TokenType::And);
    assert_eq!(tokens[2].line, 3);
    assert_eq!(tokens[3], Token::new(TokenType::Eof, String::new(), None, 3));
}

#[test]
fn scanner_reports_and_continues() {
    let mut scanner = Scanner::new("1 @ 2".to_string());
    let tokens = scanner.scan_tokens();
    assert_eq!(tokens.len(), 3);
    assert_eq!(
        scanner.take_errors(),
        vec![LoxError::ParseError { line: 1, site: Site::Line, problem: Problem::UnexpectedCharacter }]
    );
    let mut open = Scanner::new("print \"abc".to_string());
    let tokens = open.scan_tokens();
    assert_eq!(tokens.len(), 2);
    assert_eq!(
        open.take_errors(),
        vec![LoxError::ParseError { line: 1, site: Site::Line, problem: Problem::UnterminatedString }]
    );
}

#[test]
fn printer_shows_structure() {
    let (_, parsed) = Lox::new().run("-1 + (2 * 3)");
    assert_eq!(AstPrinter::print(&parsed.unwrap()), "(+ (- 1) (group (* 2 3)))");
    assert_eq!(AstPrinter::print_literal(&Literal::Number(0.5f64.to_bits())), "0.5");
    assert_eq!(AstPrinter::print_literal(&Literal::Nil), "nil");
    assert_eq!(AstPrinter::print_literal(&Literal::Boolean(true)), "true");
}

#[test]
fn printed_forms() {
    let report = run("print 1.5; print 100; print true; print nil; print \"s\"; print -0.25;");
    assert_eq!(
        report.output,
        vec!["1.5", "100", "true", "nil", "s", "-0.25"].into_iter().map(String::from).collect::<Vec<_>>()
    );
}

#[test]
fn parse_error_sites() {
    match &run("print (1;").errors[0] {
        LoxError::ParseError { line, site, problem } => {
            assert_eq!(*line, 1);
            assert_eq!(*site, Site::Lexeme(";".to_string()));
            assert_eq!(*problem, Problem::ExpectRightParenAfterExpression);
        },
        other => panic!("unexpected {:?}", other),
    }
    match &run("print 1").errors[0] {
        LoxError::ParseError { site, problem, .. } => {
            assert_eq!(*site, Site::End);
            assert_eq!(*problem, Problem::ExpectSemicolonAfterValue);
        },
        other => panic!("unexpected {:?}", other),
    }
}

#[test]
fn every_parse_problem() {
    assert_eq!(parse_problems("1 = 2;"), vec![Problem::InvalidAssignmentTarget]);
    assert_eq!(parse_problems("var a = 1"), vec![Problem::ExpectSemicolonAfterVariable]);
    assert_eq!(parse_problems("1 + 2"), vec![Problem::ExpectSemicolonAfterExpression]);
    assert_eq!(parse_problems("{ print 1;"), vec![Problem::ExpectRightBraceAfterBlock]);
    assert_eq!(parse_problems("if 1) print 1;"), vec![Problem::ExpectLeftParenAfterIf]);
    assert_eq!(parse_problems("if (1 print 1;"), vec![Problem::ExpectRightParenAfterIfCondition]);
    assert_eq!(parse_problems("while 1) print 1;"), vec![Problem::ExpectLeftParenAfterWhile]);
    assert_eq!(parse_problems("while (1 print 1;"), vec![Problem::ExpectRightParenAfterCondition]);
    assert_eq!(parse_problems("for i = 0) print i;"), vec![Problem::ExpectLeftParenAfterFor]);
    assert_eq!(parse_problems("for (;1 print 1;"), vec![Problem::ExpectSemicolonAfterLoopCondition]);
    assert_eq!(parse_problems("for (;;1 print 1;"), vec![Problem::ExpectRightParenAfterForClauses]);
    assert_eq!(parse_problems("f(1 2);"), vec![Problem::ExpectRightParenAfterArguments]);
    assert_eq!(parse_problems("\"open"), vec![Problem::UnterminatedString]);
    assert_eq!(parse_problems("#;"), vec![Problem::UnexpectedCharacter, Problem::ExpectExpression]);
}

#[test]
fn argument_cap() {
    let args: Vec<String> = (0..256).map(|i| i.to_string()).collect();
    let text = format!("f({});", args.join(", "));
    assert_eq!(parse_problems(&text), vec![Problem::TooManyArguments]);
    let more: Vec<String> = (0..257).map(|i| i.to_string()).collect();
    let text = format!("f({}); print (;", more.join(", "));
    assert_eq!(
        parse_problems(&text),
        vec![Problem::TooManyArguments, Problem::TooManyArguments, Problem::ExpectExpression]
    );
    let (reported, parsed) = Lox::new().run(&format!("f({})", args.join(", ")));
    assert_eq!(reported.len(), 1);
    assert!(parsed.is_ok());
    let ok: Vec<String> = (0..255).map(|i| i.to_string()).collect();
    assert_eq!(runtime_problem(&format!("var f = 1; f({});", ok.join(", "))), Problem::NotCallable);
}

#[test]
fn every_runtime_problem() {
    assert_eq!(runtime_problem("print -\"a\";"), Problem::OperandMustBeNumber);
    assert_eq!(runtime_problem("print 1 < \"a\";"), Problem::OperandsMustBeNumbers);
    assert_eq!(runtime_problem("print missing;"), Problem::UndefinedVariable);
    assert_eq!(runtime_problem("missing = 1;"), Problem::UndefinedVariable);
    assert_eq!(runtime_problem("\"f\"();"), Problem::NotCallable);
    let name = Token::new(TokenType::Identifier, "field".to_string(), None, 4);
    let object = Expr::Literal { value: Literal::Nil };
    let get = Expr::Get { object: Box::new(object), name };
    match evaluate(&get) {
        Err(LoxError::RuntimeError { problem, line, .. }) => {
            assert_eq!(problem, Problem::UnsupportedExpression);
            assert_eq!(line, 4);
        },
        other => panic!("unexpected {:?}", other),
    }
    let mut reef = Reef::new();
    reef.run("print nope;");
    assert!(reef.had_runtime_error());
    reef.reset();
    assert!(!reef.had_runtime_error());
}

#[test]
fn runtime_error_stops_the_run() {
    let report = run("print 1; print nope; print 2;");
    assert_eq!(report.output, vec!["1".to_string()]);
    assert_eq!(report.errors.len(), 1);
}

#[test]
fn step_budget_stops_a_loop() {
    let mut scanner = Scanner::new("while (true) {}".to_string());
    let program = Parser::new(scanner.scan_tokens()).parse().unwrap();
    let mut interpreter = Interpreter::with_step_budget(5);
    assert_eq!(interpreter.interpret(program), Err(LoxError::BudgetExhausted));
}

#[test]
fn statements_run_on_an_interpreter() {
    let mut interpreter = Interpreter::new();
    let name = Token::new(TokenType::Identifier, "x".to_string(), None, 1);
    let declare = Stmt::new(StmtKind::Var {
        name: Token::new(TokenType::Identifier, "x".to_string(), None, 1),
        initializer: Some(Expr::Literal { value: Literal::Number(4.0f64.to_bits()) }),
    });
    assert_eq!(declare.execute(&mut interpreter), Ok(()));
    let show = Stmt::new(StmtKind::Print { expr: Expr::Variable { name } });
    assert_eq!(show.execute(&mut interpreter), Ok(()));
    assert_eq!(interpreter.take_output(), vec!["4".to_string()]);
    assert_eq!(interpreter.stringify(&Value::Callable("f".to_string())), "<fn f>");
}

#[test]
fn environment_chain() {
    let x = Token::new(TokenType::Identifier, "x".to_string(), None, 1);
    let mut global = Environment::new(None);
    assert!(global.define("x".to_string(), Value::Nil).is_ok());
    let mut inner = Environment::new(Some(global));
    assert_eq!(inner.assign(&x, number(2.0)), Ok(number(2.0)));
    assert_eq!(inner.get(&x), Ok(number(2.0)));
    inner.pop_scope();
    assert_eq!(inner.get(&x), Ok(number(2.0)));
    let y = Token::new(TokenType::Identifier, "y".to_string(), None, 7);
    assert_eq!(
        inner.assign(&y, Value::Nil),
        Err(LoxError::RuntimeError { line: 7, lexeme: "y".to_string(), problem: Problem::UndefinedVariable })
    );
}
