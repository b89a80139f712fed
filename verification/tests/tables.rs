use calculator::ast::{duplicate_names, Expr};
use calculator::evaluator::{
    binary, bind_parameters, unary, unstack, unstack_boxed, zero, Action, Evaluator,
};
use calculator::parser::prefix_function;
use calculator::table::Table;
use calculator::token::{Numeral, Operations};

fn number(text: &str) -> Expr {
    Expr::Number(Numeral::Decimal(text.to_string()))
}

#[test]
fn an_empty_table_binds_nothing() {
    let table: Table<u64> = Table::new();
    assert_eq!(table.get(&"x".to_string()), None);
}

#[test]
fn a_bound_name_is_found() {
    let mut table: Table<u64> = Table::new();
    table.insert("x".to_string(), 1);
    table.insert("y".to_string(), 2);
    assert_eq!(table.get(&"x".to_string()), Some(&1));
    assert_eq!(table.get(&"y".to_string()), Some(&2));
    assert_eq!(table.get(&"z".to_string()), None);
}

#[test]
fn binding_again_overwrites() {
    let mut table: Table<u64> = Table::new();
    table.insert("x".to_string(), 1);
    table.insert("y".to_string(), 2);
    table.insert("x".to_string(), 3);
    assert_eq!(table.get(&"x".to_string()), Some(&3));
    assert_eq!(table.get(&"y".to_string()), Some(&2));
}

#[test]
fn parameters_are_bound_in_order() {
    let params = vec!["a".to_string(), "b".to_string(), "a".to_string()];
    let scope = bind_parameters(&params, &vec![1, 2, 3]);
    assert_eq!(scope.get(&"a".to_string()), Some(&3));
    assert_eq!(scope.get(&"b".to_string()), Some(&2));
    let short = bind_parameters(&params, &vec![7]);
    assert_eq!(short.get(&"a".to_string()), Some(&7));
    assert_eq!(short.get(&"b".to_string()), None);
}

#[test]
fn the_first_tree_comes_out_and_the_next_one_stands_last() {
    let (first, rest) = unstack(vec![number("1"), number("2"), number("3")]);
    assert_eq!(first, number("1"));
    assert_eq!(rest, vec![number("3"), number("2")]);
    let (only, none) = unstack(vec![number("1")]);
    assert_eq!(only, number("1"));
    assert!(none.is_empty());
    let (first, rest) = unstack_boxed(vec![Box::new(number("1")), Box::new(number("2"))]);
    assert_eq!(first, number("1"));
    assert_eq!(rest, vec![number("2")]);
}

#[test]
fn names_are_copied() {
    let names = vec!["a".to_string(), "bc".to_string()];
    assert_eq!(duplicate_names(&names), names);
    assert!(duplicate_names(&Vec::new()).is_empty());
}

#[test]
fn both_zeros_are_zero() {
    assert!(zero(0));
    assert!(zero(0x8000_0000_0000_0000));
    assert!(zero(0.0f64.to_bits()));
    assert!(zero((-0.0f64).to_bits()));
    assert!(!zero(1.0f64.to_bits()));
    assert!(!zero(f64::NAN.to_bits()));
    assert!(!zero(1));
}

#[test]
fn operators_are_classified() {
    assert!(binary(Operations::ADD) && binary(Operations::FNLOG) && binary(Operations::FNMOD));
    assert!(!binary(Operations::FNSIN) && !binary(Operations::COMMA) && !binary(Operations::NOT));
    assert!(unary(Operations::MINUS) && unary(Operations::NOT) && unary(Operations::FNFACT));
    assert!(unary(Operations::FNROUND) && !unary(Operations::ADD) && !unary(Operations::FNLOG));
    assert!(prefix_function(Operations::FNSIN) && prefix_function(Operations::FNFACT));
    assert!(!prefix_function(Operations::FNLOG) && !prefix_function(Operations::MINUS));
}

#[test]
fn unknown_operators_are_worth_zero() {
    let mut evaluator = Evaluator::new();
    let tree = Expr::BinaryOp(Box::new(number("1")), Operations::COMMA, Box::new(number("2")));
    assert_eq!(evaluator.eval(&tree), Action::Continue);
    let mut asked = 0;
    loop {
        match evaluator.step(Some(1.0f64.to_bits())) {
            Action::Continue => {}
            Action::Compute(_) => asked += 1,
            Action::Done(value) => {
                assert_eq!(value, 0);
                break;
            }
            Action::Fail(error) => panic!("{}", error.message()),
        }
    }
    assert_eq!(asked, 2);
    let tree = Expr::UnaryOp(Box::new(number("1")), Operations::ADD);
    assert_eq!(evaluator.eval(&tree), Action::Continue);
    loop {
        match evaluator.step(Some(1.0f64.to_bits())) {
            Action::Done(value) => {
                assert_eq!(value, 0);
                break;
            }
            Action::Fail(error) => panic!("{}", error.message()),
            _ => {}
        }
    }
}
