//! Ceiling division, shared by the chunk planner and the work partitioner.

use vstd::prelude::*;
use vstd::arithmetic::div_mod::lemma_fundamental_div_mod;
use vstd::arithmetic::div_mod::lemma_mod_division_less_than_divisor;

verus! {

/// Mathematical ceiling of `x / d`: the least `k` with `x <= k * d`.
pub open spec fn ceil_div(x: int, d: int) -> int
    recommends
        0 <= x,
        0 < d,
{
    if x == 0 {
        0
    } else {
        (x - 1) / d + 1
    }
}

/// `ceil_div(x, d) * d` is the first multiple of `d` at or above `x`.
pub proof fn lemma_ceil_div_bounds(x: int, d: int)
    requires
        0 <= x,
        0 < d,
    ensures
        0 <= ceil_div(x, d),
        x <= ceil_div(x, d) * d,
        0 < x ==> (ceil_div(x, d) - 1) * d < x,
        0 < x ==> 1 <= ceil_div(x, d),
{
    if 0 < x {
        let q = (x - 1) / d;
        lemma_fundamental_div_mod(x - 1, d);
        lemma_mod_division_less_than_divisor(x - 1, d);
        assert(d * q <= x - 1);
        assert((q + 1) * d == d * q + d) by (nonlinear_arith);
        assert(q * d == d * q) by (nonlinear_arith);
    }
}

} // verus!
