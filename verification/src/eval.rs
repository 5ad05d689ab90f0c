//! The verified core of the evaluator: checked integer factorial.
//!
//! The evaluator folds an expression tree over double-precision numbers,
//! which this library cannot hold; that fold lives with the embedding
//! host.  The one piece of the fold that is exact integer arithmetic is
//! the factorial, and it is verified here: an iterative product over a
//! 128-bit accumulator that reports overflow instead of wrapping.

use crate::errors::EvalError;
use vstd::prelude::*;

verus! {

/// The factorial of `n`, with the empty product (any `n <= 0`) equal to 1.
///
/// The iterative product runs over `1..=n`, so for a non-positive operand
/// the range is empty and the result is 1.
pub open spec fn fact(n: int) -> int
    decreases n,
{
    if n <= 0 {
        1
    } else {
        n * fact(n - 1)
    }
}

pub proof fn lemma_fact_pos(n: int)
    ensures
        fact(n) >= 1,
    decreases n,
{
    if n > 0 {
        lemma_fact_pos(n - 1);
        assert(n * fact(n - 1) >= 1) by (nonlinear_arith)
            requires
                n >= 1,
                fact(n - 1) >= 1,
        ;
    }
}

/// The factorial is monotone: a larger operand never gives a smaller
/// product.
pub proof fn lemma_fact_mono(m: int, n: int)
    requires
        m <= n,
    ensures
        fact(m) <= fact(n),
    decreases n - m,
{
    if m < n && n > 0 {
        lemma_fact_mono(m, n - 1);
        lemma_fact_pos(n - 1);
        assert(fact(n - 1) <= n * fact(n - 1)) by (nonlinear_arith)
            requires
                n >= 1,
                fact(n - 1) >= 1,
        ;
    }
}

/// The factorial of `number`, by iterative checked multiplication.
///
/// Returns the exact factorial whenever it fits in the 128-bit signed
/// accumulator, and reports `MathError` the first time a multiplication
/// would overflow — which happens exactly when the factorial itself
/// exceeds the accumulator's range.
pub fn factorial(number: i128) -> (r: Result<i128, EvalError>)
    ensures
        match r {
            Ok(v) => fact(number as int) <= i128::MAX as int && v as int == fact(number as int),
            Err(e) => fact(number as int) > i128::MAX as int && e == EvalError::MathError,
        },
{
    let mut acc: i128 = 1;
    let mut i: i128 = 1;
    proof {
        assert(fact(0) == 1);
        assert(fact(1) == 1);
    }
    while i < number
        invariant
            1 <= i,
            i <= number || (i == 1 && number <= 1),
            acc as int == fact(i as int),
        decreases number - i,
    {
        i = i + 1;
        match acc.checked_mul(i) {
            Some(product) => {
                acc = product;
            },
            None => {
                proof {
                    lemma_fact_pos(i - 1);
                    assert(acc * i >= 1) by (nonlinear_arith)
                        requires
                            acc >= 1,
                            i >= 1,
                    ;
                    assert(fact(i as int) == i * fact(i - 1));
                    lemma_fact_mono(i as int, number as int);
                }
                return Err(EvalError::MathError);
            },
        }
    }
    assert(acc as int == fact(number as int));
    Ok(acc)
}

} // verus!

