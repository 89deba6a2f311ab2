use vstd::prelude::*;

use crate::errors::ErrorCode;

verus! {

/// Result of `floor(a * b / d)` over a double-width accumulator:
/// `MathOverflow` when the divisor is zero or the quotient does not fit in
/// 64 bits, the exact quotient otherwise.
pub open spec fn spec_mul_div(a: u64, b: u64, d: u64) -> Result<u64, ErrorCode> {
    if d == 0 {
        Result::Err(ErrorCode::MathOverflow)
    } else if a * b / (d as int) > u64::MAX {
        Result::Err(ErrorCode::MathOverflow)
    } else {
        Result::Ok((a * b / (d as int)) as u64)
    }
}

/// Computes `floor(a * b / d)` with a 128-bit intermediate, so the product of
/// two 64-bit quantities never wraps. Fails with `MathOverflow` instead of
/// wrapping or truncating when the divisor is zero or the quotient exceeds
/// `u64::MAX`.
pub fn mul_div_u64(a: u64, b: u64, d: u64) -> (r: Result<u64, ErrorCode>)
    ensures
        r == spec_mul_div(a, b, d),
{
    if d == 0 {
        return Err(ErrorCode::MathOverflow);
    }
    assert((a as int) * (b as int) <= u128::MAX) by (nonlinear_arith)
        requires
            a <= u64::MAX,
            b <= u64::MAX,
    ;
    let numerator: u128 = (a as u128) * (b as u128);
    let quotient: u128 = numerator / (d as u128);
    if quotient > u64::MAX as u128 {
        Err(ErrorCode::MathOverflow)
    } else {
        Ok(quotient as u64)
    }
}

} // verus!
