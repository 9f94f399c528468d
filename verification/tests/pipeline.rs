use calc::eval::evaluate;
use calc::lexer::tokenize;
use calc::parser::{parse, Expr, ParseError, Parser};
use calc::token::{LexError, Token};
use calc::value::{Rat, Value};

fn eval_text(input: &str) -> Value {
    let tokens = tokenize(input).expect("input should lex");
    let expr = parse(tokens).expect("input should parse");
    evaluate(&expr)
}

fn fin(num: i64, den: i64) -> Value {
    Value::Finite(Rat { num, den })
}

#[test]
fn precedence_binds_multiplication_tighter() {
    assert_eq!(eval_text("2 + 3 * 4"), fin(14, 1));
}

#[test]
fn subtraction_is_left_associative() {
    assert_eq!(eval_text("10 - 2 - 3"), fin(5, 1));
}

#[test]
fn parentheses_override_precedence() {
    assert_eq!(eval_text("(2 + 3) * 4"), fin(20, 1));
}

#[test]
fn nested_parentheses_with_trailing_paren() {
    assert_eq!(eval_text("((1+2)*(3+4)))"), fin(21, 1));
}

#[test]
fn division_is_exact() {
    let v = eval_text("4 / 2");
    assert_eq!(v, fin(4, 2));
    match v {
        Value::Finite(r) => assert_eq!(r.num, 2 * r.den),
        _ => panic!("expected a finite value"),
    }
}

#[test]
fn division_by_zero_is_positive_infinity() {
    assert_eq!(eval_text("1 / 0"), Value::PosInf);
}

#[test]
fn negative_over_zero_is_negative_infinity() {
    assert_eq!(eval_text("(0 - 1) / 0"), Value::NegInf);
}

#[test]
fn zero_over_zero_is_nan() {
    assert_eq!(eval_text("0 / 0"), Value::NaN);
}

#[test]
fn infinity_minus_infinity_is_nan() {
    assert_eq!(eval_text("1 / 0 - 1 / 0"), Value::NaN);
}

#[test]
fn trailing_operator_reports_end_of_input() {
    let tokens = tokenize("2 + ").expect("input should lex");
    assert_eq!(parse(tokens), Err(ParseError::UnexpectedEndOfInput));
}

#[test]
fn unexpected_character_is_named_with_position() {
    assert_eq!(
        tokenize("2 & 3"),
        Err(LexError::UnexpectedChar { ch: '&', pos: 2 })
    );
}

#[test]
fn rerunning_the_pipeline_is_identical() {
    let input = "3 + 5 * (10 - 4)";
    let t1 = tokenize(input);
    let t2 = tokenize(input);
    assert_eq!(t1, t2);
    let e1 = parse(t1.unwrap());
    let e2 = parse(t2.unwrap());
    assert_eq!(e1, e2);
    let expr = e1.unwrap();
    assert_eq!(evaluate(&expr), evaluate(&expr));
    assert_eq!(evaluate(&expr), fin(33, 1));
}

#[test]
fn tokens_appear_in_source_order() {
    assert_eq!(
        tokenize("1 + 2"),
        Ok(vec![
            Token::Number(Rat { num: 1, den: 1 }),
            Token::Plus,
            Token::Number(Rat { num: 2, den: 1 }),
        ])
    );
}

#[test]
fn whitespace_produces_no_token() {
    assert_eq!(tokenize(" 1  + 2 "), tokenize("1 + 2"));
}

#[test]
fn every_symbol_has_its_token() {
    assert_eq!(
        tokenize("+-*/()"),
        Ok(vec![
            Token::Plus,
            Token::Minus,
            Token::Star,
            Token::Slash,
            Token::LParen,
            Token::RParen,
        ])
    );
}

#[test]
fn decimal_literal_scales_by_ten_per_fraction_digit() {
    assert_eq!(
        tokenize("1.25"),
        Ok(vec![Token::Number(Rat { num: 125, den: 100 })])
    );
}

#[test]
fn decimal_arithmetic_is_exact() {
    let v = eval_text("0.5 * 4");
    match v {
        Value::Finite(r) => assert_eq!(r.num, 2 * r.den),
        _ => panic!("expected a finite value"),
    }
}

#[test]
fn literal_may_begin_or_end_with_the_point() {
    assert_eq!(
        tokenize(".5"),
        Ok(vec![Token::Number(Rat { num: 5, den: 10 })])
    );
    assert_eq!(
        tokenize("2."),
        Ok(vec![Token::Number(Rat { num: 2, den: 1 })])
    );
}

#[test]
fn division_keeps_exact_thirds() {
    assert_eq!(eval_text("1 / 3"), fin(1, 3));
}

#[test]
fn multiple_decimal_points_are_malformed() {
    assert_eq!(
        tokenize("1.2.3"),
        Err(LexError::MalformedNumber { pos: 0 })
    );
}

#[test]
fn lone_decimal_point_is_malformed() {
    assert_eq!(tokenize("."), Err(LexError::MalformedNumber { pos: 0 }));
}

#[test]
fn oversized_literal_is_malformed() {
    assert_eq!(
        tokenize("1234567890123456789"),
        Err(LexError::MalformedNumber { pos: 0 })
    );
    assert_eq!(
        tokenize("123456789012345678"),
        Ok(vec![Token::Number(Rat { num: 123456789012345678, den: 1 })])
    );
}

#[test]
fn malformed_literal_position_points_at_its_start() {
    assert_eq!(
        tokenize("1 + 2..3"),
        Err(LexError::MalformedNumber { pos: 4 })
    );
}

#[test]
fn missing_closing_paren_is_unmatched() {
    let tokens = tokenize("(1 + 2").expect("input should lex");
    assert_eq!(parse(tokens), Err(ParseError::UnmatchedParen));
}

#[test]
fn operator_in_factor_position_is_unexpected() {
    let tokens = tokenize("2 + * 3").expect("input should lex");
    assert_eq!(
        parse(tokens),
        Err(ParseError::UnexpectedToken { found: Token::Star, pos: 2 })
    );
}

#[test]
fn leading_minus_is_unexpected() {
    let tokens = tokenize("-2").expect("input should lex");
    assert_eq!(
        parse(tokens),
        Err(ParseError::UnexpectedToken { found: Token::Minus, pos: 0 })
    );
}

#[test]
fn empty_input_is_end_of_input() {
    assert_eq!(tokenize(""), Ok(vec![]));
    assert_eq!(parse(vec![]), Err(ParseError::UnexpectedEndOfInput));
}

#[test]
fn out_of_range_result_collapses_to_nan() {
    assert_eq!(
        eval_text("123456789012345678 * 123456789012345678"),
        Value::NaN
    );
}

#[test]
fn finite_over_infinity_is_zero() {
    assert_eq!(eval_text("5 / (1 / 0)"), fin(0, 1));
}

#[test]
fn parser_cursor_walks_the_tokens() {
    let tokens = tokenize("1 + 2").expect("input should lex");
    let mut p = Parser::new(tokens);
    assert_eq!(p.current(), Some(Token::Number(Rat { num: 1, den: 1 })));
    p.advance();
    assert_eq!(p.current(), Some(Token::Plus));
    p.advance();
    p.advance();
    assert_eq!(p.current(), None);
    let mut q = Parser::new(tokenize("2 + 3 * 4").expect("input should lex"));
    let parsed = q.parse_expr().expect("input should parse");
    assert_eq!(evaluate(&parsed), fin(14, 1));
}

#[test]
fn evaluate_on_a_leaf_returns_its_fraction() {
    let leaf = Expr::Number(Rat { num: 3, den: 1 });
    assert!(leaf.well_formed());
    assert_eq!(evaluate(&leaf), fin(3, 1));
}

#[test]
fn parsed_trees_are_well_formed() {
    let tokens = tokenize("(2 + 3) * 4 - 1.5").expect("input should lex");
    let expr = parse(tokens).expect("input should parse");
    assert!(expr.well_formed());
}
