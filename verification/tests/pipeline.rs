use calculator::evaluator::{Action, EvalError, Request};
use calculator::parser::Parser;
use calculator::token::{Numeral, Operations};
use calculator::tokeniser::Tokeniser;

fn factorial(n: f64) -> f64 {
    if n < 0.0 {
        f64::NAN
    } else if n == 0.0 || n == 1.0 {
        1.0
    } else {
        (1..=(n as u64)).fold(1.0, |acc, x| acc * x as f64)
    }
}

fn literal(numeral: &Numeral) -> f64 {
    match numeral {
        Numeral::Decimal(text) => text.parse::<f64>().unwrap(),
        Numeral::Euler => std::f64::consts::E,
        Numeral::Pi => std::f64::consts::PI,
    }
}

fn unary(op: Operations, val: f64) -> f64 {
    match op {
        Operations::FNCOS => val.cos(),
        Operations::FNSIN => val.sin(),
        Operations::FNTAN => val.tan(),
        Operations::FNFACT => factorial(val),
        Operations::MINUS => -val,
        Operations::NOT => -(val + 1.0),
        Operations::FNABS => val.abs(),
        Operations::FNSQRT => val.sqrt(),
        Operations::FNEXP => f64::powf(std::f64::consts::E, val),
        Operations::FNASIN => val.asin(),
        Operations::FNACOS => val.acos(),
        Operations::FNATAN => val.atan(),
        Operations::FNSINH => val.sinh(),
        Operations::FNCOSH => val.cosh(),
        Operations::FNTANH => val.tanh(),
        Operations::FNFLOOR => val.floor(),
        Operations::FNCEIL => val.ceil(),
        Operations::FNROUND => val.round(),
        _ => unreachable!(),
    }
}

fn binary(op: Operations, left: f64, right: f64) -> f64 {
    match op {
        Operations::ADD => left + right,
        Operations::MINUS => left - right,
        Operations::POWER => f64::powf(left, right),
        Operations::DIVIDE => left / right,
        Operations::MULTIPLY => left * right,
        Operations::FNLOG => left.ln() / right.ln(),
        Operations::FNMOD => left % right,
        _ => unreachable!(),
    }
}

fn compute(request: &Request) -> u64 {
    let value = match request {
        Request::Literal(numeral) => literal(numeral),
        Request::Unary(op, operand) => unary(*op, f64::from_bits(*operand)),
        Request::Binary(op, left, right) => {
            binary(*op, f64::from_bits(*left), f64::from_bits(*right))
        }
    };
    value.to_bits()
}

fn run(parser: &mut Parser) -> Result<f64, EvalError> {
    let mut reply = None;
    loop {
        match parser.step(reply.take()) {
            Action::Continue => {}
            Action::Compute(request) => reply = Some(compute(&request)),
            Action::Done(value) => return Ok(f64::from_bits(value)),
            Action::Fail(error) => return Err(error),
        }
    }
}

fn parse_and_eval(input: &str) -> f64 {
    let mut tokeniser = Tokeniser::new(input.to_string());
    let tokens = match tokeniser.to_tokens() {
        Ok(tokens) => tokens,
        Err(error) => panic!("{}", error.message()),
    };
    let mut parser = Parser::new(tokens);
    let ast = match parser.parse_lines() {
        Ok(ast) => ast,
        Err(error) => panic!("{}", error.message()),
    };
    parser.evaluate(&ast);
    match run(&mut parser) {
        Ok(value) => value,
        Err(error) => panic!("{}", error.message()),
    }
}

fn eval_error(input: &str) -> EvalError {
    let tokens = Tokeniser::new(input.to_string()).to_tokens().unwrap();
    let mut parser = Parser::new(tokens);
    let ast = parser.parse_lines().unwrap();
    parser.evaluate(&ast);
    run(&mut parser).unwrap_err()
}

#[test]
fn test_basic_arithmetic() {
    assert_eq!(parse_and_eval("2 + 3"), 5.0);
    assert_eq!(parse_and_eval("10 - 4"), 6.0);
    assert_eq!(parse_and_eval("3 * 4"), 12.0);
    assert_eq!(parse_and_eval("20 / 5"), 4.0);
    assert_eq!(parse_and_eval("2 ^ 3"), 8.0);
}

#[test]
fn test_complex_expressions() {
    assert_eq!(parse_and_eval("2 + 3 * 4"), 14.0);
    assert_eq!(parse_and_eval("(2 + 3) * 4"), 20.0);
    assert_eq!(parse_and_eval("2 ^ 3 + 1"), 9.0);
}

#[test]
fn test_variables() {
    assert_eq!(parse_and_eval("let x = 5\nx + 3"), 8.0);
    assert_eq!(parse_and_eval("let x = 5\nlet y = 3\nx * y"), 15.0);
}

#[test]
fn test_scopes() {
    assert_eq!(parse_and_eval("{ 2 + 3 }"), 5.0);
    assert_eq!(parse_and_eval("let x = 1\n{ let x = 2\nx + 3 }\nx"), 1.0);
}

#[test]
fn test_functions() {
    assert_eq!(parse_and_eval("sin(0)"), 0.0);
    assert_eq!(parse_and_eval("cos(0)"), 1.0);
    assert_eq!(parse_and_eval("log(100, 10)"), 2.0);
    assert_eq!(parse_and_eval("sqrt(16)"), 4.0);
}

#[test]
fn test_complex_scopes() {
    let input = r#"
        let x = 1
        {
            let y = 2
            let z = {
                let x = 3
                x + y
            }
            z + x
        }
        "#;
    assert_eq!(parse_and_eval(input), 6.0);
}

#[test]
#[should_panic(expected = "Missing ')'")]
fn test_unmatched_parentheses() {
    parse_and_eval("(2 + 3");
}

#[test]
#[should_panic(expected = "Undeclared Variable: x")]
fn test_undeclared_variable() {
    parse_and_eval("x + 5");
}

#[test]
#[should_panic(expected = "Invalid character")]
fn test_invalid_character() {
    parse_and_eval("2 @ 3");
}

#[test]
#[should_panic(expected = "Expected identifier after let")]
fn test_invalid_let_statement() {
    parse_and_eval("let 5 = 10");
}

#[test]
#[should_panic]
fn test_division_by_zero() {
    parse_and_eval("10 / 0");
}

#[test]
#[should_panic]
fn test_invalid_function_call() {
    parse_and_eval("notafunction(10)");
}

#[test]
#[should_panic]
fn test_mismatched_scope_braces() {
    parse_and_eval("{ let x = 5 } }");
}

#[test]
fn shadowed_binding_is_restored_after_the_block() {
    assert_eq!(parse_and_eval("let x = 1\n{ let x = 2\nx + 3 }"), 5.0);
    assert_eq!(parse_and_eval("let x = 1\n{ let x = 2\nx + 3 }\nx + 10"), 11.0);
}

#[test]
fn inner_scope_reads_outer_bindings() {
    assert_eq!(parse_and_eval("let x = 4\n{ x * 2 }"), 8.0);
}

#[test]
fn function_declaration_and_call() {
    assert_eq!(parse_and_eval("fn test(x, y) { x + y }\ntest(5,2) + test(5,2)"), 14.0);
}

#[test]
fn function_without_parameters() {
    assert_eq!(parse_and_eval("fn seven() { 3 + 4 }\nseven()"), 7.0);
}

#[test]
fn redeclared_function_overwrites() {
    assert_eq!(parse_and_eval("fn f(x) { x + 1 }\nfn f(x) { x + 2 }\nf(1)"), 3.0);
}

#[test]
fn call_sees_the_callers_scopes() {
    assert_eq!(parse_and_eval("fn f(x) { x + y }\nlet y = 10\nf(1)"), 11.0);
}

#[test]
fn parameters_shadow_and_leave_no_trace() {
    assert_eq!(parse_and_eval("let x = 1\nfn f(x) { x * 2 }\nf(5) + x"), 11.0);
}

#[test]
fn arguments_are_evaluated_in_the_callers_scope() {
    assert_eq!(parse_and_eval("let x = 3\nfn f(x, y) { x + y }\nf(1, x)"), 4.0);
}

#[test]
fn nested_calls() {
    assert_eq!(parse_and_eval("fn sq(x) { x * x }\nfn f(a) { sq(a) + 1 }\nf(sq(2))"), 17.0);
}

#[test]
fn evaluating_twice_gives_the_same_result() {
    let source = "let x = 2\nfn f(a) { a ^ x }\nf(3) + sqrt(16)";
    let first = parse_and_eval(source);
    let second = parse_and_eval(source);
    assert_eq!(first, 13.0);
    assert_eq!(first.to_bits(), second.to_bits());
}

#[test]
fn default_logarithm_base_is_ten() {
    assert_eq!(parse_and_eval("log(100)"), 2.0);
    assert_eq!(parse_and_eval("log(8, 2)"), 3.0);
}

#[test]
fn modulo_and_factorial() {
    assert_eq!(parse_and_eval("7 % 3"), 1.0);
    assert_eq!(parse_and_eval("5!"), 120.0);
    assert_eq!(parse_and_eval("!4"), 24.0);
    assert_eq!(parse_and_eval("7 % 4!"), 6.0);
    assert_eq!(parse_and_eval("0!"), 1.0);
    assert_eq!(parse_and_eval("3.9!"), 6.0);
    assert!(parse_and_eval("(0 - 2)!").is_nan());
}

#[test]
fn unary_minus_and_not() {
    assert_eq!(parse_and_eval("-5 + 8"), 3.0);
    assert_eq!(parse_and_eval("~5"), -6.0);
    assert_eq!(parse_and_eval("~(0 - 1)"), 0.0);
}

#[test]
fn operators_of_one_level_associate_to_the_left() {
    assert_eq!(parse_and_eval("10 - 4 - 3"), 3.0);
    assert_eq!(parse_and_eval("64 / 4 / 2"), 8.0);
    assert_eq!(parse_and_eval("2 ^ 3 ^ 2"), 64.0);
}

#[test]
fn named_functions() {
    assert_eq!(parse_and_eval("abs(0 - 3)"), 3.0);
    assert_eq!(parse_and_eval("floor(2.7)"), 2.0);
    assert_eq!(parse_and_eval("ceil(2.2)"), 3.0);
    assert_eq!(parse_and_eval("round(2.5)"), 3.0);
    assert_eq!(parse_and_eval("exp(0)"), 1.0);
    assert_eq!(parse_and_eval("tan(0) + 1"), 1.0);
    assert_eq!(parse_and_eval("sinh(0) + cosh(0) + tanh(0)"), 1.0);
    assert_eq!(parse_and_eval("asin(0) + acos(1) + atan(0) + 2"), 2.0);
    assert!(parse_and_eval("sqrt(0 - 1)").is_nan());
}

#[test]
fn named_constants() {
    assert_eq!(parse_and_eval("pi"), std::f64::consts::PI);
    assert_eq!(parse_and_eval("e"), std::f64::consts::E);
    assert_eq!(parse_and_eval("2 * pi"), 2.0 * std::f64::consts::PI);
}

#[test]
fn decimal_literals() {
    assert_eq!(parse_and_eval("1.5 + 2.25"), 3.75);
    assert_eq!(parse_and_eval("1.5+2.5"), 4.0);
    assert_eq!(parse_and_eval("3."), 3.0);
}

#[test]
fn zero_valued_statements_do_not_replace_the_last_result() {
    assert_eq!(parse_and_eval("5\n0"), 5.0);
    assert_eq!(parse_and_eval("5\nlet x = 2"), 5.0);
    assert_eq!(parse_and_eval("7\nfn f(x) { x }"), 7.0);
    assert_eq!(parse_and_eval("5\n3 - 3"), 5.0);
    assert_eq!(parse_and_eval("let x = 2"), 0.0);
    assert_eq!(parse_and_eval(""), 0.0);
}

#[test]
fn negative_zero_counts_as_zero() {
    assert_eq!(parse_and_eval("5\n0 * (0 - 1)").to_bits(), 5.0f64.to_bits());
    assert!(matches!(eval_error("1 / (0 * (0 - 1))"), EvalError::DivisionByZero));
}

#[test]
fn a_block_keeps_the_value_of_its_last_statement() {
    assert_eq!(parse_and_eval("{ 5\n0 }"), 0.0);
    assert_eq!(parse_and_eval("{ 5\n6 }"), 6.0);
    assert_eq!(parse_and_eval("{ }"), 0.0);
    assert_eq!(parse_and_eval("1 + { 2\n3 }"), 4.0);
}

#[test]
fn assignment_without_let() {
    assert_eq!(parse_and_eval("x = 4\nx * x"), 16.0);
    assert_eq!(parse_and_eval("let x = 1\nx = x + 1\nx"), 2.0);
}

#[test]
fn assignment_in_a_block_does_not_reach_the_outer_scope() {
    assert_eq!(parse_and_eval("let x = 1\n{ x = 5 }\nx"), 1.0);
}

#[test]
fn evaluation_errors_have_their_kinds() {
    assert!(matches!(eval_error("x + 5"), EvalError::UndeclaredVariable(name) if name == "x"));
    assert!(matches!(eval_error("10 / 0"), EvalError::DivisionByZero));
    assert!(matches!(eval_error("g(1)"), EvalError::UndefinedFunction(name) if name == "g"));
    assert!(matches!(
        eval_error("fn f(x) { x }\nf(1, 2)"),
        EvalError::ArityMismatch { name, expected: 1, found: 2 } if name == "f"
    ));
    assert!(matches!(
        eval_error("fn f(x) { x }\nf()"),
        EvalError::ArityMismatch { expected: 1, found: 0, .. }
    ));
}

#[test]
fn evaluation_error_messages() {
    assert_eq!(eval_error("x + 5").message(), "Undeclared Variable: x");
    assert_eq!(eval_error("10 / 0").message(), "Division by zero");
    assert_eq!(eval_error("g(1)").message(), "Undefined Function: g");
    assert_eq!(
        eval_error("fn f(x) { x }\nf(1, 2)").message(),
        "Function f called with wrong # of params"
    );
}

#[test]
fn a_failure_stops_the_evaluation() {
    let tokens = Tokeniser::new("let x = 1\n1 / 0\nlet x = 2".to_string()).to_tokens().unwrap();
    let mut parser = Parser::new(tokens);
    let ast = parser.parse_lines().unwrap();
    parser.evaluate(&ast);
    assert!(matches!(run(&mut parser), Err(EvalError::DivisionByZero)));
    assert!(matches!(parser.step(None), Action::Fail(EvalError::DivisionByZero)));
    assert!(matches!(parser.step(Some(1)), Action::Fail(EvalError::DivisionByZero)));
}

#[test]
fn the_evaluator_asks_again_until_it_is_answered() {
    let tokens = Tokeniser::new("41".to_string()).to_tokens().unwrap();
    let mut parser = Parser::new(tokens);
    let ast = parser.parse_lines().unwrap();
    parser.evaluate(&ast);
    assert!(matches!(
        parser.step(None),
        Action::Compute(Request::Literal(Numeral::Decimal(text))) if text == "41"
    ));
    assert!(matches!(
        parser.step(None),
        Action::Compute(Request::Literal(Numeral::Decimal(text))) if text == "41"
    ));
    assert!(matches!(parser.step(Some(41.0f64.to_bits())), Action::Continue));
    assert!(matches!(parser.step(None), Action::Done(value) if value == 41.0f64.to_bits()));
    assert!(matches!(parser.step(None), Action::Done(value) if value == 41.0f64.to_bits()));
}

#[test]
fn bindings_and_functions_outlive_an_evaluation() {
    let tokens = Tokeniser::new("let x = 3\nfn f(a) { a + x }".to_string()).to_tokens().unwrap();
    let mut parser = Parser::new(tokens);
    let ast = parser.parse_lines().unwrap();
    parser.evaluate(&ast);
    assert_eq!(run(&mut parser).unwrap(), 0.0);
    let mut second = Parser::new(Tokeniser::new("f(4)".to_string()).to_tokens().unwrap());
    let call = second.parse_lines().unwrap();
    parser.evaluate(&call);
    assert_eq!(run(&mut parser).unwrap(), 7.0);
}

#[test]
fn a_single_node_can_be_reduced_on_its_own() {
    let mut parser = Parser::new(Tokeniser::new("2 * 3".to_string()).to_tokens().unwrap());
    let node = parser.parse_tokens().unwrap();
    let mut fresh = Parser::new(Vec::new());
    assert!(matches!(fresh.eval(&node), Action::Continue));
    assert_eq!(run(&mut fresh).unwrap(), 6.0);
}
