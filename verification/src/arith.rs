//! Facts on integer division and powers of two.

use vstd::arithmetic::div_mod::*;
use vstd::prelude::*;

verus! {

/// Rounding down twice is rounding down once, for negative numbers too.
pub proof fn lemma_floor_of_floor(x: int, a: int, b: int)
    requires
        a > 0,
        b > 0,
    ensures
        a * b > 0,
        (x / a) / b == x / (a * b),
{
    let q = x / a;
    let r = x % a;
    let h = q / b;
    let e = q % b;
    lemma_fundamental_div_mod(x, a);
    lemma_fundamental_div_mod(q, b);
    assert(a * b > 0) by (nonlinear_arith)
        requires
            a > 0,
            b > 0,
    ;
    assert(x == (a * b) * h + (a * e + r) && 0 <= a * e + r < a * b) by (nonlinear_arith)
        requires
            x == a * q + r,
            q == b * h + e,
            0 <= r < a,
            0 <= e < b,
            a > 0,
    ;
    lemma_fundamental_div_mod_converse(x, a * b, h, a * e + r);
}

} // verus!
