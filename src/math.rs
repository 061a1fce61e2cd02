//! Scaled multiply-divide on 64-bit unsigned integers.

use vstd::prelude::*;

verus! {

/// `floor(a * b / c)`, or no result when `c` is zero or the quotient does not
/// fit in 64 bits.
pub open spec fn mul_div_value(a: int, b: int, c: int) -> Option<int> {
    if c == 0 || a * b / c > u64::MAX {
        None
    } else {
        Some(a * b / c)
    }
}

/// The integer held by an optional 64-bit result.
pub open spec fn opt_u64(r: Option<u64>) -> Option<int> {
    match r {
        Some(v) => Some(v as int),
        None => None,
    }
}

/// Computes `floor(a * b / c)` in 128-bit precision.
pub fn mul_div_imbalanced(a: u64, b: u64, c: u64) -> (r: Option<u64>)
    ensures
        opt_u64(r) == mul_div_value(a as int, b as int, c as int),
{
    if c == 0 {
        return None;
    }
    assert((a as int) * (b as int) <= (u64::MAX as int) * (u64::MAX as int)) by (nonlinear_arith)
        requires
            a <= u64::MAX,
            b <= u64::MAX,
    ;
    let product: u128 = (a as u128) * (b as u128);
    let quotient: u128 = product / (c as u128);
    if quotient > u64::MAX as u128 {
        None
    } else {
        Some(quotient as u64)
    }
}

/// Computes `floor(a * b / c)`, staying in 64-bit arithmetic when the product
/// fits and widening otherwise.
pub fn mul_div(a: u64, b: u64, c: u64) -> (r: Option<u64>)
    ensures
        opt_u64(r) == mul_div_value(a as int, b as int, c as int),
{
    match a.checked_mul(b) {
        Some(product) => {
            if c == 0 {
                None
            } else {
                Some(product / c)
            }
        },
        None => mul_div_imbalanced(a, b, c),
    }
}

} // verus!
