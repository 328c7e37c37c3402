//! Small arithmetic lemmas shared by the geometry and projection modules.

use vstd::prelude::*;

verus! {

/// A product of two values is bounded by the product of their bounds.
pub proof fn lemma_mul_bound(x: int, y: int, bx: int, by: int)
    by (nonlinear_arith)
    requires
        -bx <= x <= bx,
        -by <= y <= by,
    ensures
        -(bx * by) <= x * y <= bx * by,
{
}

/// Euclidean division recovers the quotient from a decomposition with a
/// remainder in range.
pub proof fn lemma_div_of_decomposition(a: int, d: int, q: int, r: int)
    requires
        d > 0,
        0 <= r < d,
        a == q * d + r,
    ensures
        a / d == q,
{
    vstd::arithmetic::div_mod::lemma_fundamental_div_mod_converse_div(a, d, q, r);
}

} // verus!
