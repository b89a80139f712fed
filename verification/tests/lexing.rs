use calculator::chars::{digit, keyword, lowercase, spells, symbol};
use calculator::token::{Numeral, Operations, Token, ValueType};
use calculator::tokeniser::{characters, LexError, Tokeniser};

fn lex(input: &str) -> Result<Vec<Token>, LexError> {
    Tokeniser::new(input.to_string()).to_tokens()
}

fn operations(input: &str) -> Vec<Option<Operations>> {
    lex(input).unwrap().iter().map(|token| token.operation).collect()
}

fn identifier(token: &Token) -> Option<&str> {
    match &token.value {
        Some(ValueType::Identifier(name)) => Some(name.as_str()),
        _ => None,
    }
}

fn decimal(token: &Token) -> Option<&str> {
    match &token.value {
        Some(ValueType::Number(Numeral::Decimal(text))) => Some(text.as_str()),
        _ => None,
    }
}

#[test]
fn single_characters_map_to_operators() {
    assert_eq!(
        operations("{ } = ~ + - ^ * / ! ( ) , %"),
        vec![
            Some(Operations::LBRACE),
            Some(Operations::RBRACE),
            Some(Operations::VARASSIGN),
            Some(Operations::NOT),
            Some(Operations::ADD),
            Some(Operations::MINUS),
            Some(Operations::POWER),
            Some(Operations::MULTIPLY),
            Some(Operations::DIVIDE),
            Some(Operations::FNFACT),
            Some(Operations::LPAREN),
            Some(Operations::RPAREN),
            Some(Operations::COMMA),
            Some(Operations::FNMOD),
        ]
    );
}

#[test]
fn reserved_words_map_to_operators() {
    assert_eq!(
        operations(
            "sin cos tan log abs sqrt exp asin acos atan sinh cosh tanh floor ceil round let fn"
        ),
        vec![
            Some(Operations::FNSIN),
            Some(Operations::FNCOS),
            Some(Operations::FNTAN),
            Some(Operations::FNLOG),
            Some(Operations::FNABS),
            Some(Operations::FNSQRT),
            Some(Operations::FNEXP),
            Some(Operations::FNASIN),
            Some(Operations::FNACOS),
            Some(Operations::FNATAN),
            Some(Operations::FNSINH),
            Some(Operations::FNCOSH),
            Some(Operations::FNTANH),
            Some(Operations::FNFLOOR),
            Some(Operations::FNCEIL),
            Some(Operations::FNROUND),
            Some(Operations::VARLET),
            Some(Operations::FNDEFINE),
        ]
    );
}

#[test]
fn operator_tokens_carry_no_value() {
    for token in lex("sin ( + let").unwrap() {
        assert!(token.operation.is_some());
        assert!(token.value.is_none());
    }
}

#[test]
fn value_tokens_carry_no_operator() {
    for token in lex("x 12 pi e 3.5").unwrap() {
        assert!(token.operation.is_none());
        assert!(token.value.is_some());
    }
}

#[test]
fn named_constants_are_numbers() {
    let tokens = lex("e pi").unwrap();
    assert!(matches!(tokens[0].value, Some(ValueType::Number(Numeral::Euler))));
    assert!(matches!(tokens[1].value, Some(ValueType::Number(Numeral::Pi))));
}

#[test]
fn other_words_are_identifiers() {
    let tokens = lex("x sinx lets pie fnx eE").unwrap();
    let names: Vec<_> = tokens.iter().map(|token| identifier(token).unwrap()).collect();
    assert_eq!(names, vec!["x", "sinx", "lets", "pie", "fnx", "eE"]);
}

#[test]
fn alphabetic_characters_continue_a_word() {
    let tokens = lex("aB+b\u{e9}c 1").unwrap();
    assert_eq!(tokens.len(), 4);
    assert_eq!(identifier(&tokens[0]), Some("aB"));
    assert_eq!(tokens[1].operation, Some(Operations::ADD));
    assert_eq!(identifier(&tokens[2]), Some("b\u{e9}c"));
    assert_eq!(decimal(&tokens[3]), Some("1"));
}

#[test]
fn a_digit_ends_a_word() {
    let tokens = lex("ab12").unwrap();
    assert_eq!(tokens.len(), 2);
    assert_eq!(identifier(&tokens[0]), Some("ab"));
    assert_eq!(decimal(&tokens[1]), Some("12"));
}

#[test]
fn numbers_keep_their_text() {
    let tokens = lex("12 3.25 7. 0.5").unwrap();
    let texts: Vec<_> = tokens.iter().map(|token| decimal(token).unwrap()).collect();
    assert_eq!(texts, vec!["12", "3.25", "7.", "0.5"]);
}

#[test]
fn a_number_ends_at_the_first_other_character() {
    let tokens = lex("1.5+2.5").unwrap();
    assert_eq!(tokens.len(), 3);
    assert_eq!(decimal(&tokens[0]), Some("1.5"));
    assert_eq!(tokens[1].operation, Some(Operations::ADD));
    assert_eq!(decimal(&tokens[2]), Some("2.5"));
}

#[test]
fn a_second_decimal_point_is_an_error() {
    assert_eq!(lex("1.2.3"), Err(LexError::MultipleDecimalPoints { line: 0 }));
    assert_eq!(lex("x\n\n1..2"), Err(LexError::MultipleDecimalPoints { line: 2 }));
    assert_eq!(
        lex("1.2.3").unwrap_err().message(),
        "Failed to parse number, multiple decimal points"
    );
}

#[test]
fn an_unknown_character_is_an_error() {
    assert_eq!(lex("2 @ 3"), Err(LexError::InvalidCharacter { line: 0 }));
    assert_eq!(lex("2\n3\n#"), Err(LexError::InvalidCharacter { line: 2 }));
    assert_eq!(lex("X"), Err(LexError::InvalidCharacter { line: 0 }));
    assert_eq!(lex("\t"), Err(LexError::InvalidCharacter { line: 0 }));
    assert_eq!(lex(".5"), Err(LexError::InvalidCharacter { line: 0 }));
    assert_eq!(lex("2 @ 3").unwrap_err().message(), "Invalid character");
    assert_eq!(lex("2\n3\n#").unwrap_err().line(), 2);
}

#[test]
fn tokens_are_tagged_with_their_line() {
    let tokens = lex("a\nb c\n\n d").unwrap();
    let lines: Vec<_> = tokens.iter().map(|token| token.line_number).collect();
    assert_eq!(lines, vec![0, 1, 1, 3]);
}

#[test]
fn leading_line_breaks_are_counted() {
    let tokens = lex("\n\nx").unwrap();
    assert_eq!(tokens[0].line_number, 2);
}

#[test]
fn the_line_count_starts_at_zero_on_every_call() {
    let mut tokeniser = Tokeniser::new("a\nb".to_string());
    let first = tokeniser.to_tokens().unwrap();
    let second = tokeniser.to_tokens().unwrap();
    assert_eq!(first.len(), 2);
    assert_eq!(second.len(), 2);
    assert_eq!(first[1].line_number, 1);
    assert_eq!(second[1].line_number, 1);
}

#[test]
fn empty_and_blank_texts_have_no_tokens() {
    assert!(lex("").unwrap().is_empty());
    assert!(lex("  \n \n").unwrap().is_empty());
}

#[test]
fn character_classes() {
    assert!(digit('0') && digit('9') && !digit('a') && !digit('.'));
    assert!(lowercase('a') && lowercase('z') && !lowercase('A') && !lowercase('1'));
    assert_eq!(symbol('+'), Some(Operations::ADD));
    assert_eq!(symbol('{'), Some(Operations::LBRACE));
    assert_eq!(symbol('}'), Some(Operations::RBRACE));
    assert_eq!(symbol('@'), None);
}

#[test]
fn words_are_compared_character_by_character() {
    let text = characters("a sin b");
    assert_eq!(text.len(), 7);
    assert!(spells(&text, 2, 5, "sin"));
    assert!(!spells(&text, 2, 5, "cos"));
    assert!(!spells(&text, 2, 4, "sin"));
    assert!(spells(&text, 3, 3, ""));
    assert_eq!(keyword(&text, 2, 5), Some(Operations::FNSIN));
    assert_eq!(keyword(&text, 0, 1), None);
}
