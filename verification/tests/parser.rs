use calculator::ast::{Expression, Operator};
use calculator::errors::ParseError;
use calculator::lexer::tokenize;
use calculator::parser::Parser;
use calculator::token::Token;

fn parse(input: &str) -> Result<Expression, ParseError> {
    let tokens = tokenize(input).unwrap();
    let mut parser = Parser::new(tokens);
    parser.start()
}

fn num(text: &str) -> Expression {
    Expression::Number(text.chars().collect())
}

fn bin(op: Operator, lhs: Expression, rhs: Expression) -> Expression {
    Expression::BinaryOp(op, Box::new(lhs), Box::new(rhs))
}

fn un(op: Operator, inner: Expression) -> Expression {
    Expression::UnaryOp(op, Box::new(inner))
}

#[test]
fn parse_number() {
    assert_eq!(parse("42").unwrap(), num("42"));
}

#[test]
fn parse_multiplication_binds_tighter_than_addition() {
    assert_eq!(parse("1+2*2").unwrap(), bin(Operator::Add, num("1"), bin(Operator::Mul, num("2"), num("2"))));
}

#[test]
fn parse_power_binds_tighter_than_multiplication() {
    assert_eq!(
        parse("1+2*3^2").unwrap(),
        bin(
            Operator::Add,
            num("1"),
            bin(Operator::Mul, num("2"), bin(Operator::Pow, num("3"), num("2")))
        )
    );
}

#[test]
fn parse_power_is_right_associative() {
    assert_eq!(
        parse("2^3^2").unwrap(),
        bin(Operator::Pow, num("2"), bin(Operator::Pow, num("3"), num("2")))
    );
}

#[test]
fn parse_subtraction_is_left_associative() {
    assert_eq!(
        parse("1-2-3").unwrap(),
        bin(Operator::Sub, bin(Operator::Sub, num("1"), num("2")), num("3"))
    );
}

#[test]
fn parse_factorial_stacks() {
    assert_eq!(parse("3!!").unwrap(), un(Operator::Fact, un(Operator::Fact, num("3"))));
}

#[test]
fn parse_factorial_binds_tighter_than_binary_operators() {
    assert_eq!(
        parse("3*3!+1").unwrap(),
        bin(
            Operator::Add,
            bin(Operator::Mul, num("3"), un(Operator::Fact, num("3"))),
            num("1")
        )
    );
}

#[test]
fn parse_factorial_of_parenthesized_expression() {
    assert_eq!(
        parse("(3*3)!-1").unwrap(),
        bin(
            Operator::Sub,
            un(Operator::Fact, bin(Operator::Mul, num("3"), num("3"))),
            num("1")
        )
    );
}

#[test]
fn parse_unary_minus_binds_to_a_factor() {
    // -2^2 is -(2^2), not (-2)^2
    assert_eq!(parse("-2^2").unwrap(), un(Operator::Neg, bin(Operator::Pow, num("2"), num("2"))));
}

#[test]
fn parse_unary_minus_with_nested_parentheses() {
    assert_eq!(
        parse("-2*((1+3)*3)").unwrap(),
        bin(
            Operator::Mul,
            un(Operator::Neg, num("2")),
            bin(Operator::Mul, bin(Operator::Add, num("1"), num("3")), num("3"))
        )
    );
}

#[test]
fn parse_trailing_input_is_rejected() {
    // not silently truncated to 6
    assert_eq!(parse("6(1+1)"), Err(ParseError::TrailingInput));
}

#[test]
fn parse_unmatched_parenthesis_is_rejected() {
    assert_eq!(parse("(1+2"), Err(ParseError::UnclosedParenthesis));
}

#[test]
fn parse_stray_operator_is_rejected() {
    assert_eq!(parse("*3"), Err(ParseError::UnexpectedToken));
}

#[test]
fn parse_empty_input_is_rejected() {
    assert_eq!(parse(""), Err(ParseError::UnexpectedToken));
}

#[test]
fn term_parses_greedily_and_stops_before_an_additive_operator() {
    let tokens = tokenize("2*3+1").unwrap();
    let mut parser = Parser::new(tokens);
    assert_eq!(parser.term().unwrap(), bin(Operator::Mul, num("2"), num("3")));
    assert_eq!(parser.current_token().unwrap(), Token::Plus);
}

#[test]
fn primary_takes_the_postfix_factorials_but_not_a_binary_operator() {
    let tokens = tokenize("3!!*2").unwrap();
    let mut parser = Parser::new(tokens);
    assert_eq!(parser.primary().unwrap(), un(Operator::Fact, un(Operator::Fact, num("3"))));
    assert_eq!(parser.current_token().unwrap(), Token::Star);
}

#[test]
fn factor_consumes_a_whole_power_tower() {
    let tokens = tokenize("2^2^2+1").unwrap();
    let mut parser = Parser::new(tokens);
    assert_eq!(
        parser.factor().unwrap(),
        bin(Operator::Pow, num("2"), bin(Operator::Pow, num("2"), num("2")))
    );
    assert_eq!(parser.current_token().unwrap(), Token::Plus);
}

#[test]
fn consume_token_advances_over_one_token() {
    let tokens = tokenize("1+2").unwrap();
    let mut parser = Parser::new(tokens);
    assert_eq!(parser.current_token().unwrap(), Token::Number(vec!['1']));
    parser.consume_token();
    assert_eq!(parser.current_token().unwrap(), Token::Plus);
    parser.consume_token();
    assert_eq!(parser.expression().unwrap(), num("2"));
}

#[test]
fn parse_without_the_sentinel_reports_the_defensive_failure() {
    // a parser fed a token sequence that lacks the End sentinel — which the
    // lexer never produces — reports the recoverable out-of-range failure
    let mut parser = Parser::new(Vec::new());
    assert_eq!(parser.start(), Err(ParseError::IndexOutOfRange));
}
