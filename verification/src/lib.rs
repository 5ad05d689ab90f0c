//! A small arithmetic-expression interpreter front end.
//!
//! The pipeline has three stages: the lexer turns a formula into a token
//! sequence, the recursive-descent parser turns the tokens into an
//! expression tree while enforcing precedence and associativity, and the
//! evaluator folds the tree into a number.  The lexer, the parser and the
//! integer factorial used by the evaluator live here, each verified against
//! a mathematical description of its behaviour; the floating-point fold
//! itself is left to the embedding host, since this library holds no
//! floating-point code.

pub mod ast;
pub mod errors;
pub mod eval;
pub mod lexer;
pub mod parser;
pub mod token;
