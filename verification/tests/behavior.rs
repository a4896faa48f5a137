use calculator::CalcError;
use calculator::Rat;
use calculator::Token;
use calculator::calculate;
use calculator::evaluate;
use calculator::is_floating_point_digit;
use calculator::parse_literal;
use calculator::render;
use calculator::retrieve_operands;
use calculator::to_postfix_tokens;
use calculator::tokenize;

#[test]
fn unary_minus_lexing() {
    assert_eq!(tokenize("-5").unwrap(), vec![Token::Number(Rat::from_int(-5))]);
    assert_eq!(
        tokenize("3-5").unwrap(),
        vec![
            Token::Number(Rat::from_int(3)),
            Token::SubOp,
            Token::Number(Rat::from_int(5))
        ]
    );
}

#[test]
fn literal_lexing() {
    assert_eq!(tokenize("12.5").unwrap(), vec![Token::Number(Rat::new(125, 10))]);
    assert_eq!(tokenize(".5").unwrap(), vec![Token::Number(Rat::new(5, 10))]);
    assert_eq!(tokenize("5.").unwrap(), vec![Token::Number(Rat::new(5, 1))]);
    assert_eq!(tokenize("007").unwrap(), vec![Token::Number(Rat::from_int(7))]);
    assert_eq!(tokenize("1.2.3"), Err(CalcError::InvalidNumber));
    assert_eq!(tokenize("--1"), Err(CalcError::InvalidNumber));
    assert_eq!(tokenize("."), Err(CalcError::InvalidNumber));
}

#[test]
fn literal_parsing() {
    assert_eq!(parse_literal(&vec!['1', '.', '5']), Ok(Rat::new(15, 10)));
    assert_eq!(parse_literal(&vec!['-', '2']), Ok(Rat::from_int(-2)));
    assert_eq!(parse_literal(&vec!['-']), Err(CalcError::InvalidNumber));
    assert_eq!(parse_literal(&Vec::new()), Err(CalcError::InvalidNumber));
}

#[test]
fn digit_classification() {
    assert!(is_floating_point_digit('0'));
    assert!(is_floating_point_digit('9'));
    assert!(is_floating_point_digit('.'));
    assert!(!is_floating_point_digit('-'));
    assert!(!is_floating_point_digit('x'));
    assert!(!is_floating_point_digit(' '));
}

#[test]
fn empty_input_message() {
    assert_eq!(calculate(""), "Empty or invalid input string.");
    assert_eq!(calculate("   "), "Empty or invalid input string.");
    assert_eq!(calculate("abc"), "Empty or invalid input string.");
}

#[test]
fn unbalanced_parens_message() {
    assert_eq!(calculate("2 + (3"), "could not evaluate equation due to unbalanced parentheses");
    assert_eq!(calculate(")"), "could not evaluate equation due to unbalanced parentheses");
    assert_eq!(calculate("2+3)"), "could not evaluate equation due to unbalanced parentheses");
}

#[test]
fn malformed_expression_messages() {
    assert_eq!(calculate("+"), "could not evaluate equation due to unbalanced operands");
    assert_eq!(calculate("2+"), "could not evaluate equation due to unbalanced operands");
    assert_eq!(calculate("()"), "expression produced no result");
    assert_eq!(calculate("2 3"), "malformed expression: more than one result");
    assert_eq!(calculate("-(3)"), "could not parse a number literal");
}

#[test]
fn division_by_zero_message() {
    assert_eq!(calculate("5/0"), "division by zero");
    assert_eq!(calculate("1 / (2 - 2)"), "division by zero");
}

#[test]
fn overflow_message() {
    assert_eq!(calculate("99999999999999999999"), "arithmetic overflow");
    assert_eq!(calculate("9999999999 * 9999999999"), "arithmetic overflow");
}

#[test]
fn idempotent_calls() {
    let first = calculate("2 - 3 + 4");
    let second = calculate("2 - 3 + 4");
    assert_eq!(first, second);
    let first_err = calculate("2 + (3");
    let second_err = calculate("2 + (3");
    assert_eq!(first_err, second_err);
}

#[test]
fn exact_decimal_arithmetic() {
    assert_eq!(calculate("0.1 + 0.2"), "0.3");
    assert_eq!(calculate("1/2"), "0.5");
    assert_eq!(calculate("1/8"), "0.125");
    assert_eq!(calculate("4 / -2"), "-2");
}

#[test]
fn non_terminating_expansion_is_cut() {
    let expected = format!("0.{}", "3".repeat(64));
    assert_eq!(calculate("1/3"), expected);
}

#[test]
fn power_operator() {
    assert_eq!(calculate("2^3"), "8");
    assert_eq!(calculate("2 ^ 0"), "1");
    assert_eq!(calculate("0 ^ 0"), "1");
    assert_eq!(calculate("2^-2"), "0.25");
    assert_eq!(calculate("-2 ^ 3"), "-8");
    assert_eq!(calculate("2 ^ 0.5"), "exponent must be a whole number");
    assert_eq!(calculate("0 ^ -1"), "division by zero");
    assert_eq!(calculate("2 ^ 64"), "arithmetic overflow");
    assert_eq!(calculate("1 ^ 100"), "1");
}

#[test]
fn power_in_chains_is_left_to_right() {
    assert_eq!(calculate("2^3^2"), "64");
    assert_eq!(calculate("2 ^ 3 + 1"), "9");
    assert_eq!(calculate("2 + 3 ^ 2"), "25");
    assert_eq!(calculate("(2 + 1) ^ 2"), "9");
}

#[test]
fn evaluate_directly() {
    let postfix = vec![
        Token::Number(Rat::from_int(2)),
        Token::Number(Rat::from_int(3)),
        Token::AddOp,
    ];
    assert_eq!(evaluate(postfix), Ok(Rat::from_int(5)));
    assert_eq!(evaluate(Vec::new()), Err(CalcError::EmptyResult));
    assert_eq!(
        evaluate(vec![Token::Number(Rat::from_int(1)), Token::Number(Rat::from_int(2))]),
        Err(CalcError::MalformedResult)
    );
    assert_eq!(
        evaluate(vec![Token::Number(Rat::from_int(1)), Token::AddOp]),
        Err(CalcError::UnbalancedOperands)
    );
}

#[test]
fn operand_retrieval() {
    let mut stack = vec![Rat::from_int(1), Rat::from_int(2)];
    assert_eq!(retrieve_operands(&mut stack), Ok((Rat::from_int(2), Rat::from_int(1))));
    assert_eq!(stack.len(), 0);
    let mut short = vec![Rat::from_int(1)];
    assert_eq!(retrieve_operands(&mut short), Err(CalcError::UnbalancedOperands));
}

#[test]
fn postfix_error_on_unmatched_close() {
    let tokens = tokenize("2+3)").unwrap();
    assert_eq!(to_postfix_tokens(&tokens), Err(CalcError::UnbalancedParenthesis));
}

#[test]
fn rendering() {
    assert_eq!(render(Rat::new(-14, 4)), "-3.5");
    assert_eq!(render(Rat::new(7, 1)), "7");
    assert_eq!(render(Rat::new(0, 1)), "0");
    assert_eq!(render(Rat::new(30, 100)), "0.3");
    assert_eq!(render(Rat::new(-1, 8)), "-0.125");
}

#[test]
fn token_equality() {
    assert_eq!(Token::Number(Rat::new(1, 2)), Token::Number(Rat::new(1, 2)));
    assert_ne!(Token::Number(Rat::new(1, 2)), Token::Number(Rat::new(2, 4)));
    assert_eq!(Token::AddOp, Token::AddOp);
    assert_ne!(Token::AddOp, Token::SubOp);
}

#[test]
fn error_messages() {
    assert_eq!(CalcError::EmptyInput.message(), "Empty or invalid input string.");
    assert_eq!(
        CalcError::UnbalancedOperands.message(),
        "could not evaluate equation due to unbalanced operands"
    );
    assert_eq!(CalcError::Overflow.message(), "arithmetic overflow");
}
