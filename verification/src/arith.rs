//! Facts about multiplication and division that the proofs of this crate
//! lean on.

use vstd::arithmetic::div_mod::{
    lemma_div_by_multiple, lemma_fundamental_div_mod, lemma_mod_multiples_basic,
};
use vstd::arithmetic::mul::{lemma_mul_inequality, lemma_mul_is_commutative};
use vstd::prelude::*;

verus! {

/// A multiple of `d` leaves no remainder when divided by `d`, and the
/// quotient is the factor.
pub proof fn lemma_multiple(n: int, d: int)
    requires
        0 <= n,
        0 < d,
    ensures
        (n * d) % d == 0,
        (n * d) / d == n,
{
    lemma_mod_multiples_basic(n, d);
    lemma_div_by_multiple(n, d);
}

/// What leaves no remainder when divided by `d` is the quotient times `d`.
pub proof fn lemma_exact_division(x: int, d: int)
    requires
        0 < d,
        x % d == 0,
    ensures
        (x / d) * d == x,
{
    lemma_fundamental_div_mod(x, d);
    lemma_mul_is_commutative(d, x / d);
}

/// A factor is at most the quotient of `x` by `d` if and only if its
/// product with `d` is at most `x`.
pub proof fn lemma_quotient_bounds(x: int, d: int, m: int)
    requires
        0 <= x,
        0 < d,
        0 <= m,
    ensures
        m <= x / d <==> m * d <= x,
{
    lemma_fundamental_div_mod(x, d);
    lemma_mul_is_commutative(d, x / d);
    assert(0 <= x % d < d);
    if m <= x / d {
        lemma_mul_inequality(m, x / d, d);
    } else {
        lemma_mul_inequality(x / d + 1, m, d);
        assert((x / d + 1) * d == (x / d) * d + d) by (nonlinear_arith);
    }
}

/// Products with one factor in common.
pub proof fn lemma_products(a: int, b: int, d: int)
    requires
        0 <= d,
    ensures
        (a + 1) * d == a * d + d,
        (a - 1) * d == a * d - d,
        0 <= a ==> 0 <= a * d,
        a <= b ==> a * d <= b * d,
{
    assert((a + 1) * d == a * d + d) by (nonlinear_arith);
    assert((a - 1) * d == a * d - d) by (nonlinear_arith);
    if 0 <= a {
        lemma_mul_inequality(0, a, d);
    }
    if a <= b {
        lemma_mul_inequality(a, b, d);
    }
}

} // verus!
