//! Small arithmetic lemmas shared by the coordinate computations.

use vstd::prelude::*;

verus! {

/// A product of nonnegative factors is bounded by the product of the
/// factors' bounds.
pub proof fn lemma_mul_le(a: int, b: int, amax: int, bmax: int)
    requires
        0 <= a <= amax,
        0 <= b <= bmax,
    ensures
        0 <= a * b <= amax * bmax,
{
    assert(0 <= a * b <= amax * bmax) by (nonlinear_arith)
        requires 0 <= a <= amax && 0 <= b <= bmax;
}

/// A product of positive factors is positive.
pub proof fn lemma_mul_pos(a: int, b: int)
    requires
        0 < a,
        0 < b,
    ensures
        0 < a * b,
{
    assert(0 < a * b) by (nonlinear_arith)
        requires 0 < a && 0 < b;
}

} // verus!
