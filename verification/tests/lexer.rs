use calculator::errors::LexError;
use calculator::lexer::tokenize;
use calculator::token::Token;

fn num(text: &str) -> Token {
    Token::Number(text.chars().collect())
}

#[test]
fn tokenize_simple_expression() {
    let tokens = tokenize("1+2*2").unwrap();
    assert_eq!(tokens, vec![num("1"), Token::Plus, num("2"), Token::Star, num("2"), Token::End]);
}

#[test]
fn tokenize_decimals_and_spaces() {
    let tokens = tokenize("1.1 + 9.6").unwrap();
    assert_eq!(tokens, vec![num("1.1"), Token::Plus, num("9.6"), Token::End]);
}

#[test]
fn tokenize_space_inside_numeral_is_skipped_entirely() {
    // whitespace is not significant, so a numeral continues across it
    let tokens = tokenize("1 2").unwrap();
    assert_eq!(tokens, vec![num("12"), Token::End]);
}

#[test]
fn tokenize_all_operators() {
    let tokens = tokenize("+-*/^!()").unwrap();
    assert_eq!(
        tokens,
        vec![
            Token::Plus,
            Token::Minus,
            Token::Star,
            Token::Slash,
            Token::Caret,
            Token::Bang,
            Token::LParen,
            Token::RParen,
            Token::End
        ]
    );
}

#[test]
fn tokenize_empty_input_yields_only_the_sentinel() {
    let tokens = tokenize("").unwrap();
    assert_eq!(tokens, vec![Token::End]);
}

#[test]
fn tokenize_malformed_numeral_two_points() {
    assert_eq!(tokenize("1.2.3"), Err(LexError::MalformedNumber));
}

#[test]
fn tokenize_malformed_numeral_lone_point() {
    assert_eq!(tokenize("."), Err(LexError::MalformedNumber));
}

#[test]
fn tokenize_leading_and_trailing_point_are_valid() {
    assert_eq!(tokenize(".5").unwrap(), vec![num(".5"), Token::End]);
    assert_eq!(tokenize("5.").unwrap(), vec![num("5."), Token::End]);
}

#[test]
fn tokenize_skips_tabs_and_newlines() {
    let tokens = tokenize("1\t+\n2\r").unwrap();
    assert_eq!(tokens, vec![num("1"), Token::Plus, num("2"), Token::End]);
}

#[test]
fn tokenize_unknown_characters_are_ignored() {
    // an unrecognized character still flushes the pending numeral first
    let tokens = tokenize("1a+b2").unwrap();
    assert_eq!(tokens, vec![num("1"), Token::Plus, num("2"), Token::End]);
}

#[test]
fn tokenize_unknown_character_splits_numerals() {
    let tokens = tokenize("1a2").unwrap();
    assert_eq!(tokens, vec![num("1"), num("2"), Token::End]);
}
