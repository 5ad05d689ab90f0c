//! The failure taxonomy of the interpreter.
//!
//! Every stage returns a typed result; nothing panics.  Lexical failures
//! come from malformed numerals, parse failures from token sequences that
//! do not match the grammar, and evaluation failures from values that are
//! not valid for the requested operation.

use vstd::prelude::*;

verus! {

/// A failure of the lexer.
#[derive(Clone, Copy, Debug, PartialEq, Eq, Structural)]
pub enum LexError {
    /// A numeral buffer that is not a valid decimal literal, such as one
    /// with two decimal points or one consisting of a lone decimal point.
    MalformedNumber,
}

/// A failure of the parser.
#[derive(Clone, Copy, Debug, PartialEq, Eq, Structural)]
pub enum ParseError {
    /// No production can start at the current token (a stray operator,
    /// for example).
    UnexpectedToken,
    /// A parenthesized expression is not followed by a closing parenthesis.
    UnclosedParenthesis,
    /// Tokens remain after a complete expression has been parsed.
    TrailingInput,
    /// The cursor moved past the end of the token sequence.  With the
    /// end-of-input sentinel the lexer appends this cannot happen; it is a
    /// defensive, recoverable failure rather than undefined behaviour.
    IndexOutOfRange,
}

/// A failure of the evaluator.
#[derive(Clone, Copy, Debug, PartialEq, Eq, Structural)]
pub enum EvalError {
    /// A value that is mathematically fine as a number but not valid for
    /// the requested operation: a non-integer operand to factorial, or a
    /// factorial that exceeds the accumulator's range.
    MathError,
    /// An operator tag reached a node shape it does not belong to.  The
    /// parser never builds such a tree; this exists as a defensive
    /// contract for the host's tree fold.
    InternalError,
}

} // verus!
