//! The parser: recursive descent over the token sequence.
//!
//! One function per precedence tier, each advancing a shared cursor by one
//! token of lookahead, with no backtracking:
//!
//! ```text
//! primary    := Number | '(' expression ')' | '-' factor, then ('!')*
//! factor     := primary ('^' factor)?            right-associative
//! term       := factor (('*' | '/') factor)*     left-associative
//! expression := term (('+' | '-') term)*         left-associative
//! start      := expression End
//! ```
//!
//! The grammar is written out as the spec functions [`spec_primary`],
//! [`spec_factor`], [`spec_term`], [`spec_expression`] and [`spec_start`],
//! each mapping the token sequence and a cursor position to the parsed
//! tree and the position after it, or to the parse error; the executable
//! methods are proved to return exactly their results.  Where a spec
//! function consults a position returned by a sub-parse, an arm guards
//! against a cursor that failed to advance; the executable methods prove
//! such an arm is never taken, since every successful sub-parse strictly
//! advances the cursor and stops before the end of the sequence.

use crate::ast::{wf_expr, Expression, Operator, SpecExpr};
use crate::errors::ParseError;
use crate::token::{copy_chars, token_views, tokens_wf, SpecToken, Token};
use vstd::prelude::*;

verus! {

/// Zero or more postfix `!` applications on top of an already parsed
/// operand.  Factorial binds tighter than any binary operator and stacks
/// left-associatively.
pub open spec fn spec_postfix(ts: Seq<SpecToken>, i: int, e: SpecExpr) -> Result<
    (SpecExpr, int),
    ParseError,
>
    decreases ts.len() - i, 0int,
{
    if !(0 <= i < ts.len()) {
        Err(ParseError::IndexOutOfRange)
    } else if ts[i] is Bang {
        spec_postfix(ts, i + 1, SpecExpr::UnaryOp(Operator::Fact, Box::new(e)))
    } else {
        Ok((e, i))
    }
}

/// A primary: a numeral, a parenthesized expression, or a negated factor,
/// each followed by any number of postfix `!`.
pub open spec fn spec_primary(ts: Seq<SpecToken>, i: int) -> Result<(SpecExpr, int), ParseError>
    decreases ts.len() - i, 1int,
{
    if !(0 <= i < ts.len()) {
        Err(ParseError::IndexOutOfRange)
    } else {
        match ts[i] {
            SpecToken::Number(text) => spec_postfix(ts, i + 1, SpecExpr::Number(text)),
            SpecToken::LParen => match spec_expression(ts, i + 1) {
                Err(e) => Err(e),
                Ok((inner, j)) => if !(i < j && j < ts.len()) {
                    // a sub-parse that did not advance; never taken
                    Err(ParseError::IndexOutOfRange)
                } else if ts[j] is RParen {
                    spec_postfix(ts, j + 1, inner)
                } else {
                    Err(ParseError::UnclosedParenthesis)
                },
            },
            SpecToken::Minus => match spec_factor(ts, i + 1) {
                Err(e) => Err(e),
                Ok((operand, j)) => if !(i < j && j <= ts.len()) {
                    // a sub-parse that did not advance; never taken
                    Err(ParseError::IndexOutOfRange)
                } else {
                    spec_postfix(ts, j, SpecExpr::UnaryOp(Operator::Neg, Box::new(operand)))
                },
            },
            _ => Err(ParseError::UnexpectedToken),
        }
    }
}

/// A factor: a primary, optionally raised to a factor.  The recursion on
/// the right operand makes `^` right-associative.
pub open spec fn spec_factor(ts: Seq<SpecToken>, i: int) -> Result<(SpecExpr, int), ParseError>
    decreases ts.len() - i, 2int,
{
    match spec_primary(ts, i) {
        Err(e) => Err(e),
        Ok((base, j)) => if !(i < j && j < ts.len()) {
            // a sub-parse that did not advance; never taken
            Err(ParseError::IndexOutOfRange)
        } else if ts[j] is Caret {
            match spec_factor(ts, j + 1) {
                Err(e) => Err(e),
                Ok((exponent, k)) => Ok(
                    (SpecExpr::BinaryOp(Operator::Pow, Box::new(base), Box::new(exponent)), k),
                ),
            }
        } else {
            Ok((base, j))
        },
    }
}

/// The `('*' | '/') factor` repetitions of a term, folded left onto an
/// accumulated left operand.
pub open spec fn spec_term_rest(ts: Seq<SpecToken>, i: int, acc: SpecExpr) -> Result<
    (SpecExpr, int),
    ParseError,
>
    decreases ts.len() - i, 0int,
{
    if !(0 <= i < ts.len()) {
        Err(ParseError::IndexOutOfRange)
    } else if ts[i] is Star || ts[i] is Slash {
        match spec_factor(ts, i + 1) {
            Err(e) => Err(e),
            Ok((rhs, j)) => if !(i < j && j <= ts.len()) {
                // a sub-parse that did not advance; never taken
                Err(ParseError::IndexOutOfRange)
            } else {
                let op = if ts[i] is Star {
                    Operator::Mul
                } else {
                    Operator::Div
                };
                spec_term_rest(ts, j, SpecExpr::BinaryOp(op, Box::new(acc), Box::new(rhs)))
            },
        }
    } else {
        Ok((acc, i))
    }
}

/// A term: factors combined by `*` and `/`, left-associatively.
pub open spec fn spec_term(ts: Seq<SpecToken>, i: int) -> Result<(SpecExpr, int), ParseError>
    decreases ts.len() - i, 3int,
{
    match spec_factor(ts, i) {
        Err(e) => Err(e),
        Ok((first, j)) => if !(i < j && j <= ts.len()) {
            // a sub-parse that did not advance; never taken
            Err(ParseError::IndexOutOfRange)
        } else {
            spec_term_rest(ts, j, first)
        },
    }
}

/// The `('+' | '-') term` repetitions of an expression, folded left onto
/// an accumulated left operand.
pub open spec fn spec_expr_rest(ts: Seq<SpecToken>, i: int, acc: SpecExpr) -> Result<
    (SpecExpr, int),
    ParseError,
>
    decreases ts.len() - i, 0int,
{
    if !(0 <= i < ts.len()) {
        Err(ParseError::IndexOutOfRange)
    } else if ts[i] is Plus || ts[i] is Minus {
        match spec_term(ts, i + 1) {
            Err(e) => Err(e),
            Ok((rhs, j)) => if !(i < j && j <= ts.len()) {
                // a sub-parse that did not advance; never taken
                Err(ParseError::IndexOutOfRange)
            } else {
                let op = if ts[i] is Plus {
                    Operator::Add
                } else {
                    Operator::Sub
                };
                spec_expr_rest(ts, j, SpecExpr::BinaryOp(op, Box::new(acc), Box::new(rhs)))
            },
        }
    } else {
        Ok((acc, i))
    }
}

/// An expression: terms combined by `+` and `-`, left-associatively.
pub open spec fn spec_expression(ts: Seq<SpecToken>, i: int) -> Result<(SpecExpr, int), ParseError>
    decreases ts.len() - i, 4int,
{
    match spec_term(ts, i) {
        Err(e) => Err(e),
        Ok((first, j)) => if !(i < j && j <= ts.len()) {
            // a sub-parse that did not advance; never taken
            Err(ParseError::IndexOutOfRange)
        } else {
            spec_expr_rest(ts, j, first)
        },
    }
}

/// The whole formula: one expression followed by the `End` sentinel.
/// Tokens remaining after a complete expression are a syntax error rather
/// than being silently ignored.
pub open spec fn spec_start(ts: Seq<SpecToken>) -> Result<SpecExpr, ParseError> {
    match spec_expression(ts, 0) {
        Err(e) => Err(e),
        Ok((e, j)) => if !(0 <= j < ts.len()) {
            Err(ParseError::IndexOutOfRange)
        } else if ts[j] is End {
            Ok(e)
        } else {
            Err(ParseError::TrailingInput)
        },
    }
}

proof fn lemma_postfix_in_range(ts: Seq<SpecToken>, i: int, e: SpecExpr)
    requires
        tokens_wf(ts),
        0 <= i < ts.len(),
    ensures
        match spec_postfix(ts, i, e) {
            Ok(res) => i <= res.1 < ts.len(),
            Err(pe) => pe != ParseError::IndexOutOfRange,
        },
    decreases ts.len() - i, 0int,
{
    if ts[i] is Bang {
        assert(ts[ts.len() - 1] is End);
        lemma_postfix_in_range(ts, i + 1, SpecExpr::UnaryOp(Operator::Fact, Box::new(e)));
    }
}

proof fn lemma_primary_in_range(ts: Seq<SpecToken>, i: int)
    requires
        tokens_wf(ts),
        0 <= i < ts.len(),
    ensures
        match spec_primary(ts, i) {
            Ok(res) => i < res.1 < ts.len(),
            Err(pe) => pe != ParseError::IndexOutOfRange,
        },
    decreases ts.len() - i, 1int,
{
    assert(ts[ts.len() - 1] is End);
    match ts[i] {
        SpecToken::Number(text) => {
            lemma_postfix_in_range(ts, i + 1, SpecExpr::Number(text));
        },
        SpecToken::LParen => {
            lemma_expression_in_range(ts, i + 1);
            match spec_expression(ts, i + 1) {
                Ok(res) => {
                    if ts[res.1] is RParen {
                        lemma_postfix_in_range(ts, res.1 + 1, res.0);
                    }
                },
                Err(_) => {},
            }
        },
        SpecToken::Minus => {
            lemma_factor_in_range(ts, i + 1);
            match spec_factor(ts, i + 1) {
                Ok(res) => {
                    lemma_postfix_in_range(
                        ts,
                        res.1,
                        SpecExpr::UnaryOp(Operator::Neg, Box::new(res.0)),
                    );
                },
                Err(_) => {},
            }
        },
        _ => {},
    }
}

proof fn lemma_factor_in_range(ts: Seq<SpecToken>, i: int)
    requires
        tokens_wf(ts),
        0 <= i < ts.len(),
    ensures
        match spec_factor(ts, i) {
            Ok(res) => i < res.1 < ts.len(),
            Err(pe) => pe != ParseError::IndexOutOfRange,
        },
    decreases ts.len() - i, 2int,
{
    assert(ts[ts.len() - 1] is End);
    lemma_primary_in_range(ts, i);
    match spec_primary(ts, i) {
        Ok(res) => {
            if ts[res.1] is Caret {
                lemma_factor_in_range(ts, res.1 + 1);
            }
        },
        Err(_) => {},
    }
}

proof fn lemma_term_rest_in_range(ts: Seq<SpecToken>, i: int, acc: SpecExpr)
    requires
        tokens_wf(ts),
        0 <= i < ts.len(),
    ensures
        match spec_term_rest(ts, i, acc) {
            Ok(res) => i <= res.1 < ts.len(),
            Err(pe) => pe != ParseError::IndexOutOfRange,
        },
    decreases ts.len() - i, 0int,
{
    assert(ts[ts.len() - 1] is End);
    if ts[i] is Star || ts[i] is Slash {
        lemma_factor_in_range(ts, i + 1);
        match spec_factor(ts, i + 1) {
            Ok(res) => {
                let op = if ts[i] is Star {
                    Operator::Mul
                } else {
                    Operator::Div
                };
                lemma_term_rest_in_range(
                    ts,
                    res.1,
                    SpecExpr::BinaryOp(op, Box::new(acc), Box::new(res.0)),
                );
            },
            Err(_) => {},
        }
    }
}

proof fn lemma_term_in_range(ts: Seq<SpecToken>, i: int)
    requires
        tokens_wf(ts),
        0 <= i < ts.len(),
    ensures
        match spec_term(ts, i) {
            Ok(res) => i < res.1 < ts.len(),
            Err(pe) => pe != ParseError::IndexOutOfRange,
        },
    decreases ts.len() - i, 3int,
{
    lemma_factor_in_range(ts, i);
    match spec_factor(ts, i) {
        Ok(res) => {
            lemma_term_rest_in_range(ts, res.1, res.0);
        },
        Err(_) => {},
    }
}

proof fn lemma_expr_rest_in_range(ts: Seq<SpecToken>, i: int, acc: SpecExpr)
    requires
        tokens_wf(ts),
        0 <= i < ts.len(),
    ensures
        match spec_expr_rest(ts, i, acc) {
            Ok(res) => i <= res.1 < ts.len(),
            Err(pe) => pe != ParseError::IndexOutOfRange,
        },
    decreases ts.len() - i, 0int,
{
    assert(ts[ts.len() - 1] is End);
    if ts[i] is Plus || ts[i] is Minus {
        lemma_term_in_range(ts, i + 1);
        match spec_term(ts, i + 1) {
            Ok(res) => {
                let op = if ts[i] is Plus {
                    Operator::Add
                } else {
                    Operator::Sub
                };
                lemma_expr_rest_in_range(
                    ts,
                    res.1,
                    SpecExpr::BinaryOp(op, Box::new(acc), Box::new(res.0)),
                );
            },
            Err(_) => {},
        }
    }
}

proof fn lemma_expression_in_range(ts: Seq<SpecToken>, i: int)
    requires
        tokens_wf(ts),
        0 <= i < ts.len(),
    ensures
        match spec_expression(ts, i) {
            Ok(res) => i < res.1 < ts.len(),
            Err(pe) => pe != ParseError::IndexOutOfRange,
        },
    decreases ts.len() - i, 4int,
{
    lemma_term_in_range(ts, i);
    match spec_term(ts, i) {
        Ok(res) => {
            lemma_expr_rest_in_range(ts, res.1, res.0);
        },
        Err(_) => {},
    }
}

/// On any token sequence the lexer produces — one that ends in the `End`
/// sentinel, with the sentinel nowhere else — the parser's defensive
/// cursor check is unreachable: parsing never reports `IndexOutOfRange`.
pub proof fn lemma_start_never_index_error(ts: Seq<SpecToken>)
    requires
        tokens_wf(ts),
    ensures
        spec_start(ts) != Err::<SpecExpr, ParseError>(ParseError::IndexOutOfRange),
{
    lemma_expression_in_range(ts, 0);
}

/// The parser: the token sequence and a cursor into it.
pub struct Parser {
    pub current_index: usize,
    pub tokens: Vec<Token>,
}

impl Parser {
    /// The models of the tokens being parsed.
    pub open spec fn toks(&self) -> Seq<SpecToken> {
        token_views(self.tokens@)
    }

    pub fn new(tokens: Vec<Token>) -> (p: Parser)
        ensures
            p.tokens == tokens,
            p.current_index == 0,
    {
        Parser { current_index: 0, tokens }
    }

    /// Advances the cursor past the current token.
    pub fn consume_token(&mut self)
        requires
            old(self).current_index < old(self).tokens.len(),
        ensures
            final(self).tokens@ == old(self).tokens@,
            final(self).current_index == old(self).current_index + 1,
    {
        self.current_index = self.current_index + 1;
    }

    /// The token under the cursor, or the defensive out-of-range failure
    /// if the cursor has moved past the sequence.
    pub fn current_token(&self) -> (r: Result<Token, ParseError>)
        ensures
            match r {
                Ok(t) => self.current_index < self.tokens.len() && t@ == self.toks()[self.current_index as int],
                Err(e) => self.current_index >= self.tokens.len() && e
                    == ParseError::IndexOutOfRange,
            },
    {
        if self.current_index >= self.tokens.len() {
            return Err(ParseError::IndexOutOfRange);
        }
        match &self.tokens[self.current_index] {
            Token::Number(text) => Ok(Token::Number(copy_chars(text))),
            Token::Plus => Ok(Token::Plus),
            Token::Minus => Ok(Token::Minus),
            Token::Star => Ok(Token::Star),
            Token::Slash => Ok(Token::Slash),
            Token::Caret => Ok(Token::Caret),
            Token::Bang => Ok(Token::Bang),
            Token::LParen => Ok(Token::LParen),
            Token::RParen => Ok(Token::RParen),
            Token::End => Ok(Token::End),
        }
    }

    /// Whether the cursor stands on a postfix `!`.
    fn at_bang(&self) -> (r: bool)
        ensures
            r == (self.current_index < self.tokens.len() && self.toks()[self.current_index as int] is Bang),
    {
        if self.current_index >= self.tokens.len() {
            return false;
        }
        match &self.tokens[self.current_index] {
            Token::Bang => true,
            _ => false,
        }
    }

    /// Whether the cursor stands on `*` or `/`.
    fn at_term_op(&self) -> (r: bool)
        ensures
            r == (self.current_index < self.tokens.len() && (self.toks()[self.current_index as int] is Star || self.toks()[self.current_index as int] is Slash)),
    {
        if self.current_index >= self.tokens.len() {
            return false;
        }
        match &self.tokens[self.current_index] {
            Token::Star => true,
            Token::Slash => true,
            _ => false,
        }
    }

    /// Whether the cursor stands on `+` or `-`.
    fn at_expr_op(&self) -> (r: bool)
        ensures
            r == (self.current_index < self.tokens.len() && (self.toks()[self.current_index as int] is Plus || self.toks()[self.current_index as int] is Minus)),
    {
        if self.current_index >= self.tokens.len() {
            return false;
        }
        match &self.tokens[self.current_index] {
            Token::Plus => true,
            Token::Minus => true,
            _ => false,
        }
    }

    /// Parses one primary and its postfix factorials; returns exactly what
    /// [`spec_primary`] describes at the entry cursor.
    #[verifier::loop_isolation(false)]
    pub fn primary(&mut self) -> (r: Result<Expression, ParseError>)
        ensures
            final(self).tokens@ == old(self).tokens@,
            match r {
                Ok(e) => spec_primary(old(self).toks(), old(self).current_index as int)
                    == Ok::<(SpecExpr, int), ParseError>((e@, final(self).current_index as int))
                    && old(self).current_index < final(self).current_index && (final(self).current_index as int)
                    < old(self).tokens@.len() && (tokens_wf(old(self).toks()) ==> wf_expr(e@)),
                Err(pe) => spec_primary(old(self).toks(), old(self).current_index as int)
                    == Err::<(SpecExpr, int), ParseError>(pe),
            },
        decreases old(self).tokens@.len() - old(self).current_index, 1int,
    {
        let ghost ts = self.toks();
        let ghost i0 = self.current_index as int;
        let ghost toks0 = self.tokens@;
        let token = match self.current_token() {
            Ok(t) => t,
            Err(e) => {
                return Err(e);
            },
        };
        self.consume_token();
        let mut result_expression: Expression;
        match token {
            Token::Number(text) => {
                result_expression = Expression::Number(text);
            },
            Token::LParen => {
                let inner = match self.expression() {
                    Ok(e) => e,
                    Err(e) => {
                        return Err(e);
                    },
                };
                let close = match self.current_token() {
                    Ok(t) => t,
                    Err(e) => {
                        return Err(e);
                    },
                };
                match close {
                    Token::RParen => {
                        self.consume_token();
                        result_expression = inner;
                    },
                    _ => {
                        return Err(ParseError::UnclosedParenthesis);
                    },
                }
            },
            Token::Minus => {
                let operand = match self.factor() {
                    Ok(e) => e,
                    Err(e) => {
                        return Err(e);
                    },
                };
                result_expression = Expression::UnaryOp(Operator::Neg, Box::new(operand));
            },
            _ => {
                return Err(ParseError::UnexpectedToken);
            },
        }
        while self.at_bang()
            invariant
                self.tokens@ == toks0,
                i0 < self.current_index as int,
                (self.current_index as int) <= ts.len(),
                spec_primary(ts, i0) == spec_postfix(
                    ts,
                    self.current_index as int,
                    result_expression@,
                ),
                tokens_wf(ts) ==> wf_expr(result_expression@),
            decreases ts.len() - self.current_index,
        {
            self.consume_token();
            result_expression = Expression::UnaryOp(Operator::Fact, Box::new(result_expression));
        }
        if self.current_index >= self.tokens.len() {
            return Err(ParseError::IndexOutOfRange);
        }
        Ok(result_expression)
    }

    /// Parses one factor; returns exactly what [`spec_factor`] describes
    /// at the entry cursor.
    pub fn factor(&mut self) -> (r: Result<Expression, ParseError>)
        ensures
            final(self).tokens@ == old(self).tokens@,
            match r {
                Ok(e) => spec_factor(old(self).toks(), old(self).current_index as int)
                    == Ok::<(SpecExpr, int), ParseError>((e@, final(self).current_index as int))
                    && old(self).current_index < final(self).current_index && (final(self).current_index as int)
                    < old(self).tokens@.len() && (tokens_wf(old(self).toks()) ==> wf_expr(e@)),
                Err(pe) => spec_factor(old(self).toks(), old(self).current_index as int)
                    == Err::<(SpecExpr, int), ParseError>(pe),
            },
        decreases old(self).tokens@.len() - old(self).current_index, 2int,
    {
        let base = match self.primary() {
            Ok(e) => e,
            Err(e) => {
                return Err(e);
            },
        };
        let token = match self.current_token() {
            Ok(t) => t,
            Err(e) => {
                return Err(e);
            },
        };
        match token {
            Token::Caret => {
                self.consume_token();
                let exponent = match self.factor() {
                    Ok(e) => e,
                    Err(e) => {
                        return Err(e);
                    },
                };
                Ok(Expression::BinaryOp(Operator::Pow, Box::new(base), Box::new(exponent)))
            },
            _ => Ok(base),
        }
    }

    /// Parses one term; returns exactly what [`spec_term`] describes at
    /// the entry cursor.
    #[verifier::loop_isolation(false)]
    pub fn term(&mut self) -> (r: Result<Expression, ParseError>)
        ensures
            final(self).tokens@ == old(self).tokens@,
            match r {
                Ok(e) => spec_term(old(self).toks(), old(self).current_index as int)
                    == Ok::<(SpecExpr, int), ParseError>((e@, final(self).current_index as int))
                    && old(self).current_index < final(self).current_index && (final(self).current_index as int)
                    < old(self).tokens@.len() && (tokens_wf(old(self).toks()) ==> wf_expr(e@)),
                Err(pe) => spec_term(old(self).toks(), old(self).current_index as int)
                    == Err::<(SpecExpr, int), ParseError>(pe),
            },
        decreases old(self).tokens@.len() - old(self).current_index, 3int,
    {
        let ghost ts = self.toks();
        let ghost i0 = self.current_index as int;
        let ghost toks0 = self.tokens@;
        let mut expr = match self.factor() {
            Ok(e) => e,
            Err(e) => {
                return Err(e);
            },
        };
        while self.at_term_op()
            invariant
                self.tokens@ == toks0,
                i0 < self.current_index as int,
                (self.current_index as int) <= ts.len(),
                spec_term(ts, i0) == spec_term_rest(ts, self.current_index as int, expr@),
                tokens_wf(ts) ==> wf_expr(expr@),
            decreases ts.len() - self.current_index,
        {
            let is_star = match &self.tokens[self.current_index] {
                Token::Star => true,
                _ => false,
            };
            self.consume_token();
            let rhs = match self.factor() {
                Ok(e) => e,
                Err(e) => {
                    return Err(e);
                },
            };
            let op = if is_star {
                Operator::Mul
            } else {
                Operator::Div
            };
            expr = Expression::BinaryOp(op, Box::new(expr), Box::new(rhs));
        }
        if self.current_index >= self.tokens.len() {
            return Err(ParseError::IndexOutOfRange);
        }
        Ok(expr)
    }

    /// Parses one expression; returns exactly what [`spec_expression`]
    /// describes at the entry cursor.
    #[verifier::loop_isolation(false)]
    pub fn expression(&mut self) -> (r: Result<Expression, ParseError>)
        ensures
            final(self).tokens@ == old(self).tokens@,
            match r {
                Ok(e) => spec_expression(old(self).toks(), old(self).current_index as int)
                    == Ok::<(SpecExpr, int), ParseError>((e@, final(self).current_index as int))
                    && old(self).current_index < final(self).current_index && (final(self).current_index as int)
                    < old(self).tokens@.len() && (tokens_wf(old(self).toks()) ==> wf_expr(e@)),
                Err(pe) => spec_expression(old(self).toks(), old(self).current_index as int)
                    == Err::<(SpecExpr, int), ParseError>(pe),
            },
        decreases old(self).tokens@.len() - old(self).current_index, 4int,
    {
        let ghost ts = self.toks();
        let ghost i0 = self.current_index as int;
        let ghost toks0 = self.tokens@;
        let mut expr = match self.term() {
            Ok(e) => e,
            Err(e) => {
                return Err(e);
            },
        };
        while self.at_expr_op()
            invariant
                self.tokens@ == toks0,
                i0 < self.current_index as int,
                (self.current_index as int) <= ts.len(),
                spec_expression(ts, i0) == spec_expr_rest(ts, self.current_index as int, expr@),
                tokens_wf(ts) ==> wf_expr(expr@),
            decreases ts.len() - self.current_index,
        {
            let is_plus = match &self.tokens[self.current_index] {
                Token::Plus => true,
                _ => false,
            };
            self.consume_token();
            let rhs = match self.term() {
                Ok(e) => e,
                Err(e) => {
                    return Err(e);
                },
            };
            let op = if is_plus {
                Operator::Add
            } else {
                Operator::Sub
            };
            expr = Expression::BinaryOp(op, Box::new(expr), Box::new(rhs));
        }
        if self.current_index >= self.tokens.len() {
            return Err(ParseError::IndexOutOfRange);
        }
        Ok(expr)
    }

    /// Parses the whole token sequence: one expression, which the `End`
    /// sentinel must follow directly — trailing tokens are rejected, not
    /// silently dropped.  Returns exactly what [`spec_start`] describes,
    /// and on success a well-formed tree (when the tokens came from the
    /// lexer), so the evaluator needs no further structural validation.
    pub fn start(&mut self) -> (r: Result<Expression, ParseError>)
        requires
            old(self).current_index == 0,
        ensures
            final(self).tokens@ == old(self).tokens@,
            match r {
                Ok(e) => spec_start(old(self).toks()) == Ok::<SpecExpr, ParseError>(e@) && (
                tokens_wf(old(self).toks()) ==> wf_expr(e@)),
                Err(pe) => spec_start(old(self).toks()) == Err::<SpecExpr, ParseError>(pe),
            },
    {
        let expr = match self.expression() {
            Ok(e) => e,
            Err(e) => {
                return Err(e);
            },
        };
        let token = match self.current_token() {
            Ok(t) => t,
            Err(e) => {
                return Err(e);
            },
        };
        match token {
            Token::End => Ok(expr),
            _ => Err(ParseError::TrailingInput),
        }
    }
}

} // verus!

