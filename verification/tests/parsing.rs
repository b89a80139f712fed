use calculator::ast::Expr;
use calculator::parser::{ParseError, Parser};
use calculator::token::{Numeral, Operations, Token, ValueType};
use calculator::tokeniser::Tokeniser;

fn parse(input: &str) -> Result<Vec<Expr>, ParseError> {
    let tokens = Tokeniser::new(input.to_string()).to_tokens().unwrap();
    Parser::new(tokens).parse_lines()
}

fn show(expr: &Expr) -> String {
    match expr {
        Expr::Number(Numeral::Decimal(text)) => text.clone(),
        Expr::Number(Numeral::Euler) => "e".to_string(),
        Expr::Number(Numeral::Pi) => "pi".to_string(),
        Expr::Variable(name) => name.clone(),
        Expr::BinaryOp(left, op, right) => format!("({} {:?} {})", show(left), op, show(right)),
        Expr::UnaryOp(operand, op) => format!("({:?} {})", op, show(operand)),
        Expr::Assignment(value, name) => format!("({} = {})", name, show(value)),
        Expr::ScopeExp(body) => {
            let body: Vec<_> = body.iter().map(show).collect();
            format!("{{{}}}", body.join("; "))
        }
        Expr::Function(name, params, body) => {
            format!("fn {}({}) {}", name, params.join(", "), show(body))
        }
        Expr::FunctionCall(name, args) => {
            let args: Vec<_> = args.iter().map(|arg| show(arg)).collect();
            format!("{}({})", name, args.join(", "))
        }
    }
}

fn shown(input: &str) -> Vec<String> {
    parse(input).unwrap().iter().map(show).collect()
}

#[test]
fn multiplication_binds_tighter_than_addition() {
    assert_eq!(shown("2 + 3 * 4"), vec!["(2 ADD (3 MULTIPLY 4))"]);
    assert_eq!(shown("2 * 3 + 4"), vec!["((2 MULTIPLY 3) ADD 4)"]);
}

#[test]
fn power_binds_tighter_than_multiplication() {
    assert_eq!(shown("2 * 3 ^ 4"), vec!["(2 MULTIPLY (3 POWER 4))"]);
    assert_eq!(shown("2 ^ 3 + 1"), vec!["((2 POWER 3) ADD 1)"]);
}

#[test]
fn parentheses_group() {
    assert_eq!(shown("(2 + 3) * 4"), vec!["((2 ADD 3) MULTIPLY 4)"]);
}

#[test]
fn operators_associate_to_the_left() {
    assert_eq!(shown("1 - 2 - 3"), vec!["((1 MINUS 2) MINUS 3)"]);
    assert_eq!(shown("1 / 2 * 3"), vec!["((1 DIVIDE 2) MULTIPLY 3)"]);
    assert_eq!(shown("1 ^ 2 ^ 3"), vec!["((1 POWER 2) POWER 3)"]);
}

#[test]
fn statements_follow_each_other_without_a_terminator() {
    assert_eq!(shown("let x = 5\nx + 3"), vec!["(x = 5)", "(x ADD 3)"]);
    assert_eq!(shown("1 2 3"), vec!["1", "2", "3"]);
}

#[test]
fn an_operator_on_the_next_line_continues_the_statement() {
    assert_eq!(shown("1\n+ 2"), vec!["(1 ADD 2)"]);
}

#[test]
fn named_functions_apply_to_a_primary() {
    assert_eq!(shown("sin(0)"), vec!["(FNSIN 0)"]);
    assert_eq!(shown("sqrt 16"), vec!["(FNSQRT 16)"]);
    assert_eq!(shown("cos(1) + 2"), vec!["((FNCOS 1) ADD 2)"]);
}

#[test]
fn logarithm_with_and_without_base() {
    assert_eq!(shown("log(100, 10)"), vec!["(100 FNLOG 10)"]);
    assert_eq!(shown("log(100)"), vec!["(100 FNLOG 10)"]);
    assert_eq!(shown("log(x + 1, 2 * y)"), vec!["((x ADD 1) FNLOG (2 MULTIPLY y))"]);
}

#[test]
fn modulo_and_factorial_follow_a_primary() {
    assert_eq!(shown("a % b"), vec!["(a FNMOD b)"]);
    assert_eq!(shown("a!"), vec!["(FNFACT a)"]);
    assert_eq!(shown("a % b!"), vec!["(FNFACT (a FNMOD b))"]);
    assert_eq!(shown("!a"), vec!["(FNFACT a)"]);
    assert_eq!(shown("2 * a % b"), vec!["(2 MULTIPLY (a FNMOD b))"]);
}

#[test]
fn signs() {
    assert_eq!(shown("-x"), vec!["(MINUS x)"]);
    assert_eq!(shown("~x"), vec!["(NOT x)"]);
    assert_eq!(shown("--x"), vec!["(MINUS (MINUS x))"]);
    assert_eq!(shown("2 * -x"), vec!["(2 MULTIPLY (MINUS x))"]);
}

#[test]
fn names() {
    assert_eq!(shown("x"), vec!["x"]);
    assert_eq!(shown("x = 1 + 2"), vec!["(x = (1 ADD 2))"]);
    assert_eq!(shown("let x = 1 + 2"), vec!["(x = (1 ADD 2))"]);
    assert_eq!(shown("f(1, x + 2)"), vec!["f(1, (x ADD 2))"]);
    assert_eq!(shown("f()"), vec!["f()"]);
    assert_eq!(shown("f(1 2)"), vec!["f(1, 2)"]);
}

#[test]
fn an_unclosed_argument_list_ends_with_the_tokens() {
    assert_eq!(shown("f(1, 2"), vec!["f(1, 2)"]);
}

#[test]
fn blocks() {
    assert_eq!(shown("{ }"), vec!["{}"]);
    assert_eq!(shown("{ 1\n2 }"), vec!["{1; 2}"]);
    assert_eq!(shown("{ { x } }"), vec!["{{x}}"]);
    assert_eq!(shown("let z = { 1 }"), vec!["(z = {1})"]);
}

#[test]
fn function_declarations() {
    assert_eq!(shown("fn test(x, y) { x + y }"), vec!["fn test(x, y) {(x ADD y)}"]);
    assert_eq!(shown("fn f() { 1 }"), vec!["fn f() {1}"]);
    assert_eq!(shown("fn f(a b) { a }"), vec!["fn f(a, b) {a}"]);
}

#[test]
fn named_constants_are_literals() {
    assert_eq!(shown("pi * e"), vec!["(pi MULTIPLY e)"]);
}

#[test]
fn an_unmatched_parenthesis_is_reported() {
    assert_eq!(parse("(2 + 3"), Err(ParseError::MissingParenthesis { cursor: 4 }));
    assert_eq!(parse("(2 + 3 }"), Err(ParseError::MissingParenthesis { cursor: 5 }));
    assert_eq!(parse("log(100"), Err(ParseError::MissingParenthesis { cursor: 3 }));
    assert_eq!(parse("log(100, 10 +"), Err(ParseError::EmptyInput { cursor: 6 }));
    assert_eq!(parse("log(100, 10 }"), Err(ParseError::MissingParenthesis { cursor: 6 }));
}

#[test]
fn expect_reports_what_it_wanted_and_what_it_got() {
    assert_eq!(
        parse("log 5"),
        Err(ParseError::Unexpected { expected: Operations::LPAREN, found: None, cursor: 2 })
    );
    assert_eq!(
        parse("let x + 1"),
        Err(ParseError::Unexpected {
            expected: Operations::VARASSIGN,
            found: Some(Operations::ADD),
            cursor: 3
        })
    );
    assert_eq!(
        parse("fn f { 1 }"),
        Err(ParseError::Unexpected {
            expected: Operations::LPAREN,
            found: Some(Operations::LBRACE),
            cursor: 3
        })
    );
}

#[test]
fn the_end_of_the_tokens_is_reported() {
    assert_eq!(parse("1 +"), Err(ParseError::EmptyInput { cursor: 2 }));
    assert_eq!(parse("{ 1"), Err(ParseError::EmptyInput { cursor: 2 }));
    assert_eq!(parse("let"), Err(ParseError::EmptyInput { cursor: 1 }));
    assert_eq!(parse("let x"), Err(ParseError::EmptyInput { cursor: 2 }));
    assert_eq!(parse("fn"), Err(ParseError::EmptyInput { cursor: 1 }));
    assert_eq!(parse("fn f(a"), Err(ParseError::EmptyInput { cursor: 4 }));
    assert_eq!(parse("log"), Err(ParseError::EmptyInput { cursor: 1 }));
}

#[test]
fn misplaced_tokens_are_reported() {
    assert_eq!(parse("let 5 = 10"), Err(ParseError::ExpectedIdentifier { cursor: 2 }));
    assert_eq!(parse("fn 1() { }"), Err(ParseError::ExpectedFunctionName { cursor: 2 }));
    assert_eq!(parse("fn f(1) { }"), Err(ParseError::ExpectedParameter { cursor: 3 }));
    assert_eq!(parse("{ let x = 5 } }"), Err(ParseError::ExpectedNumber { cursor: 7 }));
    assert_eq!(parse("2 + *"), Err(ParseError::ExpectedNumber { cursor: 3 }));
    assert_eq!(parse("x = )"), Err(ParseError::ExpectedNumber { cursor: 3 }));
}

#[test]
fn error_messages() {
    assert_eq!(parse("(2 + 3").unwrap_err().message(), "Missing ')' @ 4");
    assert_eq!(parse("1 +").unwrap_err().message(), "Empty input @ 2");
    assert_eq!(parse("log 5").unwrap_err().message(), "Expected LPAREN got a value @ 2");
    assert_eq!(parse("let x + 1").unwrap_err().message(), "Expected VARASSIGN got ADD @ 3");
    assert_eq!(parse("let 5 = 10").unwrap_err().message(), "Expected identifier after let @ 2");
    assert_eq!(parse("fn 1() { }").unwrap_err().message(), "Expected function name @ 2");
    assert_eq!(parse("fn f(1) { }").unwrap_err().message(), "Expected alphanumeric parameter @ 3");
    assert_eq!(parse("2 + *").unwrap_err().message(), "Expected number @ 3");
    assert_eq!(parse("1 + 1 + 1 + 1 + 1 + 1 +").unwrap_err().message(), "Empty input @ 12");
    assert_eq!(parse("(2 + 3").unwrap_err().cursor(), 4);
}

#[test]
fn numbers_and_operators_in_words() {
    assert_eq!(calculator::text::decimal(0), "0");
    assert_eq!(calculator::text::decimal(7), "7");
    assert_eq!(calculator::text::decimal(10), "10");
    assert_eq!(calculator::text::decimal(1234567890), "1234567890");
    assert_eq!(calculator::text::decimal(usize::MAX), usize::MAX.to_string());
    assert_eq!(calculator::text::operation_name(Operations::LPAREN), "LPAREN");
    assert_eq!(calculator::text::operation_name(Operations::FNDEFINE), "FNDEFINE");
    assert_eq!(
        calculator::text::operation_name(Operations::VARASSIGN),
        format!("{:?}", Operations::VARASSIGN)
    );
}

#[test]
fn one_statement_at_a_time() {
    let tokens = Tokeniser::new("1 + 2\n3".to_string()).to_tokens().unwrap();
    let mut parser = Parser::new(tokens);
    assert_eq!(show(&parser.parse_tokens().unwrap()), "(1 ADD 2)");
    assert_eq!(show(&parser.parse_tokens().unwrap()), "3");
    assert_eq!(parser.parse_tokens(), Err(ParseError::EmptyInput { cursor: 4 }));
    assert_eq!(parser.parse_lines().map(|exprs| exprs.len()), Ok(0));
}

#[test]
fn the_parser_takes_any_tokens() {
    let both = Token {
        operation: Some(Operations::ADD),
        value: Some(ValueType::Identifier("x".to_string())),
        line_number: 0,
    };
    let neither = Token { operation: None, value: None, line_number: 0 };
    assert_eq!(Parser::new(vec![both]).parse_lines().map(|exprs| exprs.len()), Ok(1));
    assert_eq!(Parser::new(vec![neither]).parse_lines(), Err(ParseError::ExpectedNumber { cursor: 1 }));
}

#[test]
fn copies_equal_what_they_copy() {
    let exprs = parse("fn f(a, b) { let c = a % b!\n-c + log(a) }\nf(1, { 2 })").unwrap();
    for expr in &exprs {
        assert_eq!(show(&expr.duplicate()), show(expr));
        assert_eq!(show(&expr.clone()), show(expr));
    }
}

#[test]
fn entry_points_agree_with_the_methods() {
    let source = "fn f(a) { a * 2 }\nf(3) + 1";
    let tokens = calculator::tokeniser::tokenize(source.to_string()).unwrap();
    assert_eq!(tokens, Tokeniser::new(source.to_string()).to_tokens().unwrap());
    let exprs = calculator::parser::parse(tokens).unwrap();
    assert_eq!(exprs, parse(source).unwrap());
    assert_eq!(exprs.len(), 2);
    assert_eq!(
        calculator::tokeniser::tokenize("2 @ 3".to_string()),
        Err(calculator::tokeniser::LexError::InvalidCharacter { line: 0 })
    );
    assert_eq!(
        calculator::parser::parse(calculator::tokeniser::tokenize("(1".to_string()).unwrap()),
        Err(ParseError::MissingParenthesis { cursor: 2 })
    );
}

#[test]
fn the_parser_tells_where_it_stands() {
    let tokens = Tokeniser::new("1 +\n2\n3".to_string()).to_tokens().unwrap();
    let mut parser = Parser::new(tokens);
    assert_eq!(parser.position(), 0);
    assert_eq!(parser.current_line(), 1);
    parser.parse_tokens().unwrap();
    assert_eq!(parser.position(), 3);
    assert_eq!(parser.current_line(), 1);
    parser.parse_tokens().unwrap();
    assert_eq!(parser.position(), 4);
    assert_eq!(parser.current_line(), 2);
}
