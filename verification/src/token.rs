//! Tokens: the lexical vocabulary shared by the lexer and the parser.
//!
//! A numeral is carried as the text the lexer accumulated for it, so the
//! token sequence is a pure function of the input characters.  The model
//! of a token is [`SpecToken`], where the numeral text appears as a
//! `Seq<char>`; contracts speak of tokens through that model.

use vstd::prelude::*;

verus! {

/// One lexical unit of a formula.
///
/// `End` is a sentinel the lexer appends as the final token, so that every
/// lookahead the parser makes is defined.
#[derive(Debug, PartialEq, Eq)]
pub enum Token {
    /// A numeric literal, as the text it was read from: digits and at most
    /// one decimal point, with at least one digit.
    Number(Vec<char>),
    Plus,
    Minus,
    Star,
    Slash,
    /// `^`, exponentiation.
    Caret,
    /// `!`, postfix factorial.
    Bang,
    LParen,
    RParen,
    /// The end-of-input sentinel.
    End,
}

/// The mathematical model of a [`Token`].
pub enum SpecToken {
    Number(Seq<char>),
    Plus,
    Minus,
    Star,
    Slash,
    Caret,
    Bang,
    LParen,
    RParen,
    End,
}

impl View for Token {
    type V = SpecToken;

    open spec fn view(&self) -> SpecToken {
        match self {
            Token::Number(text) => SpecToken::Number(text@),
            Token::Plus => SpecToken::Plus,
            Token::Minus => SpecToken::Minus,
            Token::Star => SpecToken::Star,
            Token::Slash => SpecToken::Slash,
            Token::Caret => SpecToken::Caret,
            Token::Bang => SpecToken::Bang,
            Token::LParen => SpecToken::LParen,
            Token::RParen => SpecToken::RParen,
            Token::End => SpecToken::End,
        }
    }
}

/// The models of a token sequence.
pub open spec fn token_views(ts: Seq<Token>) -> Seq<SpecToken> {
    ts.map_values(|t: Token| t@)
}

/// Whitespace is skipped entirely by the lexer, even inside a numeral.
pub open spec fn is_space_char(c: char) -> bool {
    c == ' ' || c == '\t' || c == '\n' || c == '\r'
}

pub open spec fn is_digit_char(c: char) -> bool {
    ||| c == '0'
    ||| c == '1'
    ||| c == '2'
    ||| c == '3'
    ||| c == '4'
    ||| c == '5'
    ||| c == '6'
    ||| c == '7'
    ||| c == '8'
    ||| c == '9'
}

/// The characters the lexer accumulates into a pending numeral buffer.
pub open spec fn is_numeral_char(c: char) -> bool {
    is_digit_char(c) || c == '.'
}

/// How many decimal points a character sequence holds.
pub open spec fn dot_count(s: Seq<char>) -> nat
    decreases s.len(),
{
    if s.len() == 0 {
        0
    } else {
        dot_count(s.drop_first()) + if s[0] == '.' {
            1nat
        } else {
            0nat
        }
    }
}

/// A numeral buffer is well formed when it is a valid decimal literal:
/// at most one decimal point and, the buffer holding only digits and
/// decimal points, at least one digit.
pub open spec fn numeral_wf(s: Seq<char>) -> bool {
    dot_count(s) <= 1 && dot_count(s) < s.len()
}

/// Every character of the sequence is a digit or a decimal point.
pub open spec fn all_numeral_chars(s: Seq<char>) -> bool {
    forall|i: int| 0 <= i < s.len() ==> is_numeral_char(#[trigger] s[i])
}

/// What the lexer guarantees of every token sequence it produces: the
/// sentinel stands at the end and nowhere else, and every numeral is a
/// well-formed decimal literal.
pub open spec fn tokens_wf(ts: Seq<SpecToken>) -> bool {
    &&& ts.len() >= 1
    &&& ts.last() == SpecToken::End
    &&& forall|i: int| 0 <= i < ts.len() - 1 ==> !((#[trigger] ts[i]) is End)
    &&& forall|i: int|
        0 <= i < ts.len() ==> ((#[trigger] ts[i]) matches SpecToken::Number(text) ==> all_numeral_chars(
            text,
        ) && numeral_wf(text))
}

/// Appending a character to a buffer adds one to its decimal-point count
/// exactly when the character is a decimal point.
pub proof fn lemma_dot_count_push(s: Seq<char>, c: char)
    ensures
        dot_count(s.push(c)) == dot_count(s) + if c == '.' {
            1nat
        } else {
            0nat
        },
    decreases s.len(),
{
    if s.len() == 0 {
        assert(s.push(c).drop_first() =~= Seq::<char>::empty());
        assert(s.push(c)[0] == c);
        assert(dot_count(s.push(c).drop_first()) == 0);
    } else {
        assert(s.push(c).drop_first() =~= s.drop_first().push(c));
        assert(s.push(c)[0] == s[0]);
        lemma_dot_count_push(s.drop_first(), c);
        assert(dot_count(s.push(c)) == dot_count(s.drop_first().push(c)) + if s[0] == '.' {
            1nat
        } else {
            0nat
        });
    }
}

/// An exact copy of a character vector.
pub fn copy_chars(v: &Vec<char>) -> (r: Vec<char>)
    ensures
        r@ == v@,
{
    let mut r: Vec<char> = Vec::new();
    let mut i: usize = 0;
    while i < v.len()
        invariant
            i <= v.len(),
            r@ =~= v@.take(i as int),
        decreases v.len() - i,
    {
        r.push(v[i]);
        assert(r@ =~= v@.take(i + 1));
        i = i + 1;
    }
    assert(r@ =~= v@);
    r
}

} // verus!
