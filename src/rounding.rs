use vstd::prelude::*;
use vstd::arithmetic::div_mod::{
    lemma_fundamental_div_mod,
    lemma_fundamental_div_mod_converse,
    lemma_mod_bound,
    lemma_mod_pos_bound,
};

verus! {

/// `a / b` rounded to the nearest integer, halves rounded up (`b > 0`).
pub open spec fn round_quotient(a: int, b: int) -> int {
    (2 * a + b) / (2 * b)
}

/// Taking a whole multiple of `b` out of the numerator takes it out of the
/// rounded quotient.
pub proof fn lemma_round_shift(c: int, a: int, b: int)
    requires
        b > 0,
    ensures
        round_quotient(c * b + a, b) == c + round_quotient(a, b),
{
    let m = 2 * b;
    let x = 2 * a + b;
    lemma_fundamental_div_mod(x, m);
    lemma_mod_bound(x, m);
    let q = x / m;
    let r = x % m;
    assert(2 * (c * b + a) + b == (c + q) * m + r) by (nonlinear_arith)
        requires
            x == m * q + r,
            x == 2 * a + b,
            m == 2 * b,
    ;
    lemma_fundamental_div_mod_converse(2 * (c * b + a) + b, m, c + q, r);
}

/// A rounded quotient of a numerator in `[0, k * b]` lies in `[0, k]`.
pub proof fn lemma_round_bounds(a: int, b: int, k: int)
    requires
        b > 0,
        0 <= a <= k * b,
    ensures
        0 <= round_quotient(a, b) <= k,
{
    let m = 2 * b;
    let x = 2 * a + b;
    lemma_fundamental_div_mod(x, m);
    lemma_mod_pos_bound(x, m);
    let q = x / m;
    let r = x % m;
    assert(0 <= q <= k) by (nonlinear_arith)
        requires
            x == m * q + r,
            0 <= r < m,
            m == 2 * b,
            x == 2 * a + b,
            0 <= a <= k * b,
            b > 0,
    ;
}

/// Rounding keeps the order of two quotients: `a1 / b1 <= a2 / b2` gives the
/// same order of their rounded values.
pub proof fn lemma_round_monotone(a1: int, b1: int, a2: int, b2: int)
    requires
        b1 > 0,
        b2 > 0,
        a1 * b2 <= a2 * b1,
    ensures
        round_quotient(a1, b1) <= round_quotient(a2, b2),
{
    let m1 = 2 * b1;
    let x1 = 2 * a1 + b1;
    let m2 = 2 * b2;
    let x2 = 2 * a2 + b2;
    lemma_fundamental_div_mod(x1, m1);
    lemma_fundamental_div_mod(x2, m2);
    lemma_mod_bound(x1, m1);
    lemma_mod_bound(x2, m2);
    let q1 = x1 / m1;
    let r1 = x1 % m1;
    let q2 = x2 / m2;
    let r2 = x2 % m2;
    assert(q1 * m2 <= x2) by (nonlinear_arith)
        requires
            x1 == m1 * q1 + r1,
            0 <= r1,
            m1 == 2 * b1,
            x1 == 2 * a1 + b1,
            m2 == 2 * b2,
            x2 == 2 * a2 + b2,
            a1 * b2 <= a2 * b1,
            b1 > 0,
            b2 > 0,
    ;
    assert(q1 <= q2) by (nonlinear_arith)
        requires
            q1 * m2 <= x2,
            x2 == m2 * q2 + r2,
            r2 < m2,
            m2 > 0,
    ;
}

} // verus!
