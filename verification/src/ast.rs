//! The expression tree the parser builds and the evaluator folds.
//!
//! An expression is an immutable strict tree: every node owns its
//! children, so no sharing and no cycles are possible by construction.
//! The model of a tree is [`SpecExpr`]; contracts speak of trees through
//! that model.

use crate::token::{all_numeral_chars, numeral_wf};
use vstd::prelude::*;

verus! {

/// An operator tag: binary arithmetic, or one of the two unary shapes.
#[derive(Clone, Copy, Debug, PartialEq, Eq, Structural)]
pub enum Operator {
    Add,
    Sub,
    Mul,
    Div,
    /// Exponentiation, right-associative.
    Pow,
    /// Unary negation.
    Neg,
    /// Postfix factorial.
    Fact,
}

/// One parsed formula.
///
/// A numeral leaf carries the literal text the lexer produced for it, so
/// the tree stays a pure function of the input characters.
#[derive(Debug, PartialEq, Eq)]
pub enum Expression {
    /// A leaf literal: digits and at most one decimal point.
    Number(Vec<char>),
    /// Exactly one operand; the operator is `Neg` or `Fact`.
    UnaryOp(Operator, Box<Expression>),
    /// Left and right operands, evaluated left before right; the operator
    /// is one of the five binary tags.
    BinaryOp(Operator, Box<Expression>, Box<Expression>),
}

/// The mathematical model of an [`Expression`].
pub enum SpecExpr {
    Number(Seq<char>),
    UnaryOp(Operator, Box<SpecExpr>),
    BinaryOp(Operator, Box<SpecExpr>, Box<SpecExpr>),
}

/// The model of an expression tree.
pub open spec fn model_of(e: Expression) -> SpecExpr
    decreases e,
{
    match e {
        Expression::Number(text) => SpecExpr::Number(text@),
        Expression::UnaryOp(op, inner) => SpecExpr::UnaryOp(op, Box::new(model_of(*inner))),
        Expression::BinaryOp(op, lhs, rhs) => SpecExpr::BinaryOp(
            op,
            Box::new(model_of(*lhs)),
            Box::new(model_of(*rhs)),
        ),
    }
}

impl View for Expression {
    type V = SpecExpr;

    open spec fn view(&self) -> SpecExpr {
        model_of(*self)
    }
}

/// A tree every successful parse produces: unary nodes carry only unary
/// operator tags, binary nodes only binary ones, and every numeral leaf is
/// a well-formed decimal literal.  Such a tree is evaluable without
/// further structural validation.
pub open spec fn wf_expr(e: SpecExpr) -> bool
    decreases e,
{
    match e {
        SpecExpr::Number(text) => all_numeral_chars(text) && numeral_wf(text),
        SpecExpr::UnaryOp(op, inner) => (op == Operator::Neg || op == Operator::Fact) && wf_expr(
            *inner,
        ),
        SpecExpr::BinaryOp(op, lhs, rhs) => (op == Operator::Add || op == Operator::Sub || op
            == Operator::Mul || op == Operator::Div || op == Operator::Pow) && wf_expr(*lhs)
            && wf_expr(*rhs),
    }
}

} // verus!
