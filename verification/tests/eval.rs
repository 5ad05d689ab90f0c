use calculator::ast::{Expression, Operator};
use calculator::errors::{EvalError, LexError, ParseError};
use calculator::eval::factorial;
use calculator::lexer::tokenize;
use calculator::parser::Parser;

#[derive(Debug, PartialEq)]
enum CalcFailure {
    Lex(LexError),
    Parse(ParseError),
    Eval(EvalError),
}

/// The floating-point fold over the parsed tree, as the embedding host
/// performs it: the library supplies the tree and the checked integer
/// factorial, the host the float arithmetic.
fn eval(expr: &Expression) -> Result<f64, EvalError> {
    match expr {
        Expression::BinaryOp(op, lhs, rhs) => {
            let lhs_value = eval(lhs)?;
            let rhs_value = eval(rhs)?;
            match op {
                Operator::Add => Ok(lhs_value + rhs_value),
                Operator::Sub => Ok(lhs_value - rhs_value),
                Operator::Mul => Ok(lhs_value * rhs_value),
                Operator::Div => Ok(lhs_value / rhs_value),
                Operator::Pow => Ok(lhs_value.powf(rhs_value)),
                _ => Err(EvalError::InternalError),
            }
        }
        Expression::UnaryOp(op, inner) => {
            let value = eval(inner)?;
            match op {
                Operator::Neg => Ok(-value),
                Operator::Fact => {
                    if value.fract() == 0.0 {
                        factorial(value as i128).map(|n| n as f64)
                    } else {
                        Err(EvalError::MathError)
                    }
                }
                _ => Err(EvalError::InternalError),
            }
        }
        Expression::Number(text) => {
            let literal: String = text.iter().collect();
            literal.parse::<f64>().map_err(|_| EvalError::InternalError)
        }
    }
}

fn calc(input: &str) -> Result<f64, CalcFailure> {
    let tokens = tokenize(input).map_err(CalcFailure::Lex)?;
    let mut parser = Parser::new(tokens);
    let expr = parser.start().map_err(CalcFailure::Parse)?;
    eval(&expr).map_err(CalcFailure::Eval)
}

#[test]
fn evaluates_addition() {
    assert_eq!(calc("1+1"), Ok(2.0));
}

#[test]
fn multiplication_before_addition() {
    assert_eq!(calc("1+2*2"), Ok(5.0));
}

#[test]
fn power_before_multiplication_before_addition() {
    assert_eq!(calc("1+2*3^2"), Ok(19.0));
}

#[test]
fn power_is_right_associative() {
    // 2^(3^2), not (2^3)^2 = 64
    assert_eq!(calc("2^3^2"), Ok(512.0));
}

#[test]
fn factorial_values() {
    assert_eq!(calc("3!"), Ok(6.0));
    assert_eq!(calc("5!"), Ok(120.0));
}

#[test]
fn factorial_stacks() {
    assert_eq!(calc("3!!"), Ok(720.0));
}

#[test]
fn factorial_binds_tighter_than_binary_operators() {
    assert_eq!(calc("3*3!+1"), Ok(19.0));
}

#[test]
fn factorial_of_a_parenthesized_expression() {
    assert_eq!(calc("(3*3)!-1"), Ok(362879.0));
}

#[test]
fn unary_minus_with_nested_parentheses() {
    assert_eq!(calc("-2*((1+3)*3)"), Ok(-24.0));
}

#[test]
fn division_is_float_division() {
    assert_eq!(calc("5/2"), Ok(2.5));
}

#[test]
fn fractional_literals_add_within_epsilon() {
    let value = calc("1.1 + 9.6").unwrap();
    assert!((value - 10.7).abs() < 1e-9);
}

#[test]
fn division_by_zero_is_a_float_result_not_a_failure() {
    let value = calc("1/0").unwrap();
    assert!(value.is_infinite() && value > 0.0);
}

#[test]
fn malformed_numeral_is_a_syntax_failure() {
    assert_eq!(calc("1.2.3"), Err(CalcFailure::Lex(LexError::MalformedNumber)));
}

#[test]
fn unmatched_parenthesis_is_a_syntax_failure() {
    assert_eq!(calc("(1+2"), Err(CalcFailure::Parse(ParseError::UnclosedParenthesis)));
}

#[test]
fn trailing_input_is_a_syntax_failure() {
    assert_eq!(calc("6(1+1)"), Err(CalcFailure::Parse(ParseError::TrailingInput)));
}

#[test]
fn non_integer_factorial_is_a_math_failure() {
    assert_eq!(calc("1.5!"), Err(CalcFailure::Eval(EvalError::MathError)));
}

#[test]
fn overflowing_factorial_is_a_math_failure_not_a_wraparound() {
    assert_eq!(calc("34!"), Err(CalcFailure::Eval(EvalError::MathError)));
}

#[test]
fn results_round_trip_through_their_text_form() {
    // a successful result printed and parsed back is the same float
    let inputs = ["1+1", "1+2*2", "2^3^2", "3!", "5/2", "1.1 + 9.6", "-2*((1+3)*3)", "(3*3)!-1"];
    for input in inputs {
        let value = calc(input).unwrap();
        let text = format!("{}", value);
        assert_eq!(text.parse::<f64>().unwrap(), value);
    }
}

#[test]
fn self_test_table() {
    // the fixed diagnostic table: every case must evaluate to its expected
    // value exactly
    let test_cases: [(&str, f64); 11] = [
        ("1+1", 2.0),
        ("1+2*2", 5.0),
        ("1+2*3^2", 19.0),
        ("3!", 6.0),
        ("5!", 120.0),
        ("3!!", 720.0),
        ("3*3!+1", 19.0),
        ("(3*3)!-1", 362879.0),
        ("-2*((1+3)*3)", -24.0),
        ("5/2", 2.5),
        ("1.1 + 9.6", 10.7),
    ];
    for (input, expected) in test_cases {
        let value = calc(input).unwrap();
        let reparsed = format!("{}", value).parse::<f64>().unwrap();
        assert_eq!(reparsed, expected);
    }
}
