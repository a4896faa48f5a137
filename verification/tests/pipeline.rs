use calculator::Rat;
use calculator::Token;
use calculator::calculate;
use calculator::to_postfix_tokens;
use calculator::tokenize;

#[test]
fn wiki_test() {
    let input = "3 + 4 * 2 / (1 - 5)";
    println!("{}", input);

    let lexer_result = tokenize(input).unwrap();
    println!("{:?}", lexer_result);
    assert!(
        lexer_result
            == vec![
                Token::Number(Rat::from_int(3)),
                Token::AddOp,
                Token::Number(Rat::from_int(4)),
                Token::MulOp,
                Token::Number(Rat::from_int(2)),
                Token::DivOp,
                Token::OpenParen,
                Token::Number(Rat::from_int(1)),
                Token::SubOp,
                Token::Number(Rat::from_int(5)),
                Token::CloseParen
            ]
    );

    let shunting_yard_result = to_postfix_tokens(&lexer_result).unwrap();
    println!("{:#?}", shunting_yard_result);
    assert!(
        shunting_yard_result
            == vec![
                Token::Number(Rat::from_int(3)),
                Token::Number(Rat::from_int(4)),
                Token::AddOp,
                Token::Number(Rat::from_int(2)),
                Token::MulOp,
                Token::Number(Rat::from_int(1)),
                Token::Number(Rat::from_int(5)),
                Token::SubOp,
                Token::DivOp
            ]
    );

    let result = calculate(input);
    println!("{}", result);
    assert!(result == "-3.5");
}

#[test]
fn integer_operation() {
    let input = "2+2";
    println!("input: {:?}", input);

    let lexer_result = tokenize(input).unwrap();
    println!("lexer result: {:?}", lexer_result);
    assert!(
        lexer_result
            == vec![
                Token::Number(Rat::from_int(2)),
                Token::AddOp,
                Token::Number(Rat::from_int(2))
            ]
    );

    let shunting_yard_result = to_postfix_tokens(&lexer_result).unwrap();
    println!("shunting yard result: {:?}", shunting_yard_result);
    assert!(
        shunting_yard_result
            == vec![
                Token::Number(Rat::from_int(2)),
                Token::Number(Rat::from_int(2)),
                Token::AddOp
            ]
    );

    let result = calculate(input);
    println!("result: {:?}", result);
    assert!(result == "4");
}

#[test]
fn negatives() {
    let input = "-2 * -2";
    println!("input: {:?}", input);

    let lexer_result = tokenize(input).unwrap();
    println!("lexer result: {:?}", lexer_result);
    assert!(
        lexer_result
            == vec![
                Token::Number(Rat::from_int(-2)),
                Token::MulOp,
                Token::Number(Rat::from_int(-2))
            ]
    );

    let shunting_yard_result = to_postfix_tokens(&lexer_result).unwrap();
    println!("shunting yard result: {:?}", shunting_yard_result);
    assert!(
        shunting_yard_result
            == vec![
                Token::Number(Rat::from_int(-2)),
                Token::Number(Rat::from_int(-2)),
                Token::MulOp
            ]
    );

    let result = calculate(input);
    println!("result: {:?}", result);
    assert!(result == "4");
}

#[test]
fn balanced_parens() {
    let input = "(2 + 4) * 3";
    println!("input: {:?}", input);

    let lexer_result = tokenize(input).unwrap();
    println!("lexer result: {:?}", lexer_result);
    assert!(
        lexer_result
            == vec![
                Token::OpenParen,
                Token::Number(Rat::from_int(2)),
                Token::AddOp,
                Token::Number(Rat::from_int(4)),
                Token::CloseParen,
                Token::MulOp,
                Token::Number(Rat::from_int(3))
            ]
    );

    let shunting_yard_result = to_postfix_tokens(&lexer_result).unwrap();
    println!("shunting yard result: {:?}", shunting_yard_result);
    assert!(
        shunting_yard_result
            == vec![
                Token::Number(Rat::from_int(2)),
                Token::Number(Rat::from_int(4)),
                Token::AddOp,
                Token::Number(Rat::from_int(3)),
                Token::MulOp
            ]
    );

    let result = calculate(input);
    println!("result: {:?}", result);
    assert!(result == "18");
}

#[test]
fn paren_in_paren() {
    let input = "9 / (3 * (2 + 1))";
    println!("{}", input);

    let lexer_result = tokenize(input).unwrap();
    println!("{:?}", lexer_result);
    assert!(
        lexer_result
            == vec![
                Token::Number(Rat::from_int(9)),
                Token::DivOp,
                Token::OpenParen,
                Token::Number(Rat::from_int(3)),
                Token::MulOp,
                Token::OpenParen,
                Token::Number(Rat::from_int(2)),
                Token::AddOp,
                Token::Number(Rat::from_int(1)),
                Token::CloseParen,
                Token::CloseParen
            ]
    );

    let shunting_yard_result = to_postfix_tokens(&lexer_result).unwrap();
    println!("{:#?}", shunting_yard_result);
    assert!(
        shunting_yard_result
            == vec![
                Token::Number(Rat::from_int(9)),
                Token::Number(Rat::from_int(3)),
                Token::Number(Rat::from_int(2)),
                Token::Number(Rat::from_int(1)),
                Token::AddOp,
                Token::MulOp,
                Token::DivOp
            ]
    );

    let result = calculate(input);
    println!("result: {:?}", result);
    assert!(result == "1");
}

#[test]
fn left_to_right_solving() {
    let input = "2 - 3 + 4";
    println!("{:?}", input);

    let lexer_result = tokenize(input).unwrap();
    println!("{:?}", lexer_result);
    assert!(
        lexer_result
            == vec![
                Token::Number(Rat::from_int(2)),
                Token::SubOp,
                Token::Number(Rat::from_int(3)),
                Token::AddOp,
                Token::Number(Rat::from_int(4))
            ]
    );

    let shunting_yard_result = to_postfix_tokens(&lexer_result).unwrap();
    println!("{:#?}", shunting_yard_result);
    assert!(
        shunting_yard_result
            == vec![
                Token::Number(Rat::from_int(2)),
                Token::Number(Rat::from_int(3)),
                Token::SubOp,
                Token::Number(Rat::from_int(4)),
                Token::AddOp
            ]
    );

    let result = calculate(input);
    println!("{:?}", result);
    assert!(result == "3")
}

#[test]
fn idk() {
    let input = "2 + -3 + 4";
    let result = calculate(input);
    assert!(result == "3");
}

#[test]
fn david_test() {
    let input = "(-1 + 2) - 3 * 5 / 5";
    println!("{:?}", input);

    let lexer_result = tokenize(input).unwrap();
    println!("{:?}", lexer_result);
    assert!(
        lexer_result
            == vec![
                Token::OpenParen,
                Token::Number(Rat::from_int(-1)),
                Token::AddOp,
                Token::Number(Rat::from_int(2)),
                Token::CloseParen,
                Token::SubOp,
                Token::Number(Rat::from_int(3)),
                Token::MulOp,
                Token::Number(Rat::from_int(5)),
                Token::DivOp,
                Token::Number(Rat::from_int(5))
            ]
    );

    let shunting_yard_result = to_postfix_tokens(&lexer_result).unwrap();
    println!("{:#?}", shunting_yard_result);
    assert!(
        shunting_yard_result
            == vec![
                Token::Number(Rat::from_int(-1)),
                Token::Number(Rat::from_int(2)),
                Token::AddOp,
                Token::Number(Rat::from_int(3)),
                Token::SubOp,
                Token::Number(Rat::from_int(5)),
                Token::MulOp,
                Token::Number(Rat::from_int(5)),
                Token::DivOp
            ]
    );

    let result = calculate(input);
    println!("{:?}", result);
    assert!(result == "-2")
}

#[test]
fn weird_shit_in_parens() {
    let input = "2 + (3 - 1 + 5)";
    println!("{}", input);

    let lexer_result = tokenize(input).unwrap();
    println!("{:?}", lexer_result);

    let shunting_yard_result = to_postfix_tokens(&lexer_result).unwrap();
    println!("{:?}", shunting_yard_result);
    //2 3 1 - 5 + +
    assert!(
        shunting_yard_result
            == vec![
                Token::Number(Rat::from_int(2)),
                Token::Number(Rat::from_int(3)),
                Token::Number(Rat::from_int(1)),
                Token::SubOp,
                Token::Number(Rat::from_int(5)),
                Token::AddOp,
                Token::AddOp
            ]
    );

    let result = calculate(input);
    println!("{}", result);
    assert!(result == "9");
}
