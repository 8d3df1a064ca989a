//! Overflow-checked integer helpers used by all pricing code.
use vstd::prelude::*;

use crate::errors::ErrorCode;

verus! {

/// `r` is the integer square root of `n`: the largest `r` with `r * r <= n`.
pub open spec fn is_floor_sqrt(n: int, r: int) -> bool {
    0 <= r && r * r <= n && n < (r + 1) * (r + 1)
}

/// `x + y`, or `CalculationFailure` when the sum does not fit in 128 bits.
pub fn checked_add(x: u128, y: u128) -> (r: Result<u128, ErrorCode>)
    ensures
        r == (if x + y <= u128::MAX {
            Ok::<u128, ErrorCode>((x + y) as u128)
        } else {
            Err::<u128, ErrorCode>(ErrorCode::CalculationFailure)
        }),
{
    if x <= u128::MAX - y {
        Ok(x + y)
    } else {
        Err(ErrorCode::CalculationFailure)
    }
}

/// `x - y`, or `CalculationFailure` when `y > x`.
pub fn checked_sub(x: u128, y: u128) -> (r: Result<u128, ErrorCode>)
    ensures
        r == (if y <= x {
            Ok::<u128, ErrorCode>((x - y) as u128)
        } else {
            Err::<u128, ErrorCode>(ErrorCode::CalculationFailure)
        }),
{
    if y <= x {
        Ok(x - y)
    } else {
        Err(ErrorCode::CalculationFailure)
    }
}

/// `x * y`, or `CalculationFailure` when the product does not fit in 128 bits.
pub fn checked_mul(x: u128, y: u128) -> (r: Result<u128, ErrorCode>)
    ensures
        r == (if x * y <= u128::MAX {
            Ok::<u128, ErrorCode>((x * y) as u128)
        } else {
            Err::<u128, ErrorCode>(ErrorCode::CalculationFailure)
        }),
{
    if x == 0 || y <= u128::MAX / x {
        proof {
            if x != 0 {
                assert(x * y <= x * (u128::MAX / x)) by (nonlinear_arith)
                    requires
                        y <= u128::MAX / x,
                ;
                assert(x * (u128::MAX / x) <= u128::MAX) by (nonlinear_arith)
                    requires
                        x > 0,
                ;
            }
        }
        Ok(x * y)
    } else {
        proof {
            assert(x * y > u128::MAX) by (nonlinear_arith)
                requires
                    x > 0,
                    y > u128::MAX / x,
            ;
        }
        Err(ErrorCode::CalculationFailure)
    }
}

/// `floor(x / y)`, or `CalculationFailure` when `y == 0`.
pub fn checked_div(x: u128, y: u128) -> (r: Result<u128, ErrorCode>)
    ensures
        r == (if y != 0 {
            Ok::<u128, ErrorCode>((x / y) as u128)
        } else {
            Err::<u128, ErrorCode>(ErrorCode::CalculationFailure)
        }),
{
    if y != 0 {
        Ok(x / y)
    } else {
        Err(ErrorCode::CalculationFailure)
    }
}

/// Narrows to 64 bits, or `CalculationFailure` when `x` does not fit.
pub fn to_u64(x: u128) -> (r: Result<u64, ErrorCode>)
    ensures
        r == (if x <= u64::MAX {
            Ok::<u64, ErrorCode>(x as u64)
        } else {
            Err::<u64, ErrorCode>(ErrorCode::CalculationFailure)
        }),
{
    if x <= u64::MAX as u128 {
        Ok(x as u64)
    } else {
        Err(ErrorCode::CalculationFailure)
    }
}

/// The product of two 64-bit values, computed in 128 bits, where it always fits.
pub fn wide_mul(x: u64, y: u64) -> (r: u128)
    ensures
        r == x * y,
{
    proof {
        assert(x * y <= u64::MAX * u64::MAX) by (nonlinear_arith);
    }
    (x as u128) * (y as u128)
}

/// The integer square root of `n`, by bisection over the 64-bit range.
pub fn floor_sqrt(n: u128) -> (r: u64)
    ensures
        is_floor_sqrt(n as int, r as int),
{
    // Invariant: lo * lo <= n < hi * hi.
    let mut lo: u128 = 0;
    let mut hi: u128 = 0x1_0000_0000_0000_0000;
    assert(hi * hi > u128::MAX) by (nonlinear_arith)
        requires
            hi == 0x1_0000_0000_0000_0000u128,
    ;
    while hi - lo > 1
        invariant
            lo < hi <= 0x1_0000_0000_0000_0000,
            lo * lo <= n,
            n < hi * hi,
        decreases hi - lo,
    {
        let mid: u128 = lo + (hi - lo) / 2;
        assert(mid * mid <= u128::MAX) by (nonlinear_arith)
            requires
                mid < 0x1_0000_0000_0000_0000,
        ;
        if mid * mid <= n {
            lo = mid;
        } else {
            hi = mid;
        }
    }
    proof {
        assert(lo < 0x1_0000_0000_0000_0000);
        assert(hi == lo + 1);
    }
    lo as u64
}

} // verus!

verus! {

/// The integer square root reaches `m` exactly when `m * m` does not exceed `n`.
pub proof fn lemma_floor_sqrt_at_least(n: int, s: int, m: int)
    requires
        is_floor_sqrt(n, s),
        m >= 0,
    ensures
        s >= m <==> m * m <= n,
{
    if s >= m {
        assert(m * m <= s * s) by (nonlinear_arith)
            requires
                0 <= m <= s,
        ;
    } else {
        assert((s + 1) * (s + 1) <= m * m) by (nonlinear_arith)
            requires
                0 <= s,
                s + 1 <= m,
        ;
    }
}

} // verus!
