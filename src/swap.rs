//! Constant-product pricing with the fee taken from the input side.
use vstd::prelude::*;

use crate::errors::ErrorCode;
use crate::key::{same_key, Key};
use crate::math::{checked_div, to_u64, wide_mul};
use crate::state::{Pool, Reserves, FEE_DENOMINATOR};

verus! {

/// The part of `amount_in` that is priced once the fee is taken: floor division.
pub open spec fn effective_input(amount_in: int, fee_bps: int) -> int {
    amount_in * (FEE_DENOMINATOR - fee_bps) / FEE_DENOMINATOR as int
}

/// `floor(effective_in * reserve_out / (reserve_in + effective_in))`: the constant-product
/// output rounded down, in the pool's favour. It equals
/// `reserve_out - ceil(reserve_in * reserve_out / (reserve_in + effective_in))`.
pub open spec fn quoted_output(reserve_in: int, reserve_out: int, amount_in: int, fee_bps: int) -> int {
    let effective = effective_input(amount_in, fee_bps);
    effective * reserve_out / (reserve_in + effective)
}

/// What pricing alone refuses: no input, a zero divisor, or an output that would
/// empty the output reserve.
pub open spec fn quote_error(reserve_in: int, reserve_out: int, amount_in: int, fee_bps: int) -> Option<
    ErrorCode,
> {
    if amount_in == 0 {
        Some(ErrorCode::ZeroAmount)
    } else if reserve_in + effective_input(amount_in, fee_bps) == 0 {
        Some(ErrorCode::CalculationFailure)
    } else if quoted_output(reserve_in, reserve_out, amount_in, fee_bps) >= reserve_out {
        Some(ErrorCode::CalculationFailure)
    } else {
        None
    }
}

/// The reserve that receives the input comes first, the one paying out second.
pub open spec fn sides(pool: Pool, reserves: Reserves, input_asset_id: Seq<u8>) -> (int, int) {
    if input_asset_id == pool.asset_a_id@ {
        (reserves.reserve_a as int, reserves.reserve_b as int)
    } else {
        (reserves.reserve_b as int, reserves.reserve_a as int)
    }
}

/// The reserves after a trade of `amount_in` in for `amount_out` out.
pub open spec fn reserves_after_swap(
    reserves: Reserves,
    input_is_a: bool,
    amount_in: int,
    amount_out: int,
) -> (int, int) {
    if input_is_a {
        (reserves.reserve_a + amount_in, reserves.reserve_b - amount_out)
    } else {
        (reserves.reserve_a - amount_out, reserves.reserve_b + amount_in)
    }
}

/// What `swap` refuses, in the order it checks.
pub open spec fn swap_error(
    pool: Pool,
    reserves: Reserves,
    input_asset_id: Key,
    amount_in: u64,
    minimum_amount_out: u64,
) -> Option<ErrorCode> {
    let (reserve_in, reserve_out) = sides(pool, reserves, input_asset_id@);
    let out = quoted_output(reserve_in, reserve_out, amount_in as int, pool.fee_bps as int);
    if input_asset_id@ != pool.asset_a_id@ && input_asset_id@ != pool.asset_b_id@ {
        Some(ErrorCode::UnknownAsset)
    } else if amount_in == 0 {
        Some(ErrorCode::ZeroAmount)
    } else if !pool.consistent_with(reserves) {
        Some(ErrorCode::CalculationFailure)
    } else if quote_error(reserve_in, reserve_out, amount_in as int, pool.fee_bps as int).is_some() {
        quote_error(reserve_in, reserve_out, amount_in as int, pool.fee_bps as int)
    } else if reserve_in + amount_in > u64::MAX {
        Some(ErrorCode::CalculationFailure)
    } else if out < minimum_amount_out {
        Some(ErrorCode::SlippageExceeded)
    } else {
        None
    }
}

/// The result of an accepted swap: what the caller receives, and the reserves
/// once the custody layer has moved both amounts.
#[derive(Clone, Copy, Debug, PartialEq, Eq, Structural)]
pub struct SwapOutcome {
    pub amount_out: u64,
    pub input_is_a: bool,
    pub reserves_after: Reserves,
}

/// The input that is priced after the fee: `amount_in * (10000 - fee_bps) / 10000`.
pub fn effective_amount_in(amount_in: u64, fee_bps: u64) -> (r: u64)
    requires
        fee_bps < FEE_DENOMINATOR,
    ensures
        r == effective_input(amount_in as int, fee_bps as int),
        r <= amount_in,
{
    let keep: u128 = (FEE_DENOMINATOR - fee_bps) as u128;
    let scaled: u128 = wide_mul(amount_in, (FEE_DENOMINATOR - fee_bps));
    let r: u128 = scaled / (FEE_DENOMINATOR as u128);
    proof {
        assert(scaled / 10000 <= amount_in) by (nonlinear_arith)
            requires
                scaled == amount_in * keep,
                keep <= 10000,
        ;
    }
    r as u64
}

/// The amount paid out for `amount_in` against reserves `reserve_in` (receiving)
/// and `reserve_out` (paying), computed in 128-bit arithmetic.
pub fn get_amount_out(reserve_in: u64, reserve_out: u64, amount_in: u64, fee_bps: u64) -> (r: Result<
    u64,
    ErrorCode,
>)
    requires
        fee_bps < FEE_DENOMINATOR,
    ensures
        match r {
            Ok(out) => quote_error(reserve_in as int, reserve_out as int, amount_in as int, fee_bps as int).is_none()
                && out == quoted_output(reserve_in as int, reserve_out as int, amount_in as int, fee_bps as int),
            Err(e) => quote_error(reserve_in as int, reserve_out as int, amount_in as int, fee_bps as int) == Some(e),
        },
{
    if amount_in == 0 {
        return Err(ErrorCode::ZeroAmount);
    }
    let effective: u64 = effective_amount_in(amount_in, fee_bps);
    let denominator: u128 = reserve_in as u128 + effective as u128;
    let numerator: u128 = wide_mul(effective, reserve_out);
    let quotient: u128 = checked_div(numerator, denominator)?;
    proof {
        assert(quotient <= reserve_out) by (nonlinear_arith)
            requires
                quotient == numerator / denominator,
                numerator == effective * reserve_out,
                denominator >= effective,
                denominator > 0,
        ;
    }
    let out: u64 = quotient as u64;
    if out >= reserve_out {
        return Err(ErrorCode::CalculationFailure);
    }
    Ok(out)
}

/// Prices a trade of `amount_in` of `input_asset_id` against `reserves`, and checks
/// the slippage bound and that the product of the reserves does not shrink.
/// Nothing is changed: on success the caller moves the amounts.
pub fn swap(
    pool: &Pool,
    reserves: Reserves,
    input_asset_id: Key,
    amount_in: u64,
    minimum_amount_out: u64,
) -> (r: Result<SwapOutcome, ErrorCode>)
    requires
        pool.wf(),
    ensures
        match r {
            Ok(o) => {
                let (reserve_in, reserve_out) = sides(*pool, reserves, input_asset_id@);
                let after = reserves_after_swap(reserves, o.input_is_a, amount_in as int, o.amount_out as int);
                &&& swap_error(*pool, reserves, input_asset_id, amount_in, minimum_amount_out).is_none()
                &&& o.input_is_a == (input_asset_id@ == pool.asset_a_id@)
                &&& o.amount_out == quoted_output(reserve_in, reserve_out, amount_in as int, pool.fee_bps as int)
                &&& o.reserves_after.reserve_a == after.0
                &&& o.reserves_after.reserve_b == after.1
                &&& pool.consistent_with(o.reserves_after)
                &&& after.0 * after.1 >= reserves.reserve_a * reserves.reserve_b
                &&& pool.fee_bps > 0 ==> after.0 * after.1 > reserves.reserve_a * reserves.reserve_b
            },
            Err(e) => swap_error(*pool, reserves, input_asset_id, amount_in, minimum_amount_out) == Some(e),
        },
{
    let input_is_a = same_key(&input_asset_id, &pool.asset_a_id);
    if !input_is_a && !same_key(&input_asset_id, &pool.asset_b_id) {
        return Err(ErrorCode::UnknownAsset);
    }
    if amount_in == 0 {
        return Err(ErrorCode::ZeroAmount);
    }
    if !pool.is_consistent_with(reserves) {
        return Err(ErrorCode::CalculationFailure);
    }
    let (reserve_in, reserve_out) = if input_is_a {
        (reserves.reserve_a, reserves.reserve_b)
    } else {
        (reserves.reserve_b, reserves.reserve_a)
    };
    let amount_out = get_amount_out(reserve_in, reserve_out, amount_in, pool.fee_bps)?;
    let new_in: u64 = to_u64(reserve_in as u128 + amount_in as u128)?;
    let new_out: u64 = reserve_out - amount_out;
    proof {
        lemma_product_after_trade(reserve_in as int, reserve_out as int, amount_in as int, pool.fee_bps as int);
        assert(new_out * new_in == new_in * new_out) by (nonlinear_arith);
        assert(reserve_out * reserve_in == reserve_in * reserve_out) by (nonlinear_arith);
    }
    // The post-trade invariant, asserted on the next state; proved never to fail.
    if wide_mul(new_in, new_out) < wide_mul(reserve_in, reserve_out) {
        return Err(ErrorCode::CalculationFailure);
    }
    if amount_out < minimum_amount_out {
        return Err(ErrorCode::SlippageExceeded);
    }
    let reserves_after = if input_is_a {
        Reserves { reserve_a: new_in, reserve_b: new_out }
    } else {
        Reserves { reserve_a: new_out, reserve_b: new_in }
    };
    Ok(SwapOutcome { amount_out, input_is_a, reserves_after })
}

/// Rounding the output down keeps the reserve product from shrinking, and a fee
/// makes it grow strictly.
proof fn lemma_product_after_trade(reserve_in: int, reserve_out: int, amount_in: int, fee_bps: int)
    requires
        reserve_in >= 0,
        reserve_out >= 0,
        amount_in > 0,
        0 <= fee_bps < FEE_DENOMINATOR,
        reserve_in + effective_input(amount_in, fee_bps) > 0,
        quoted_output(reserve_in, reserve_out, amount_in, fee_bps) < reserve_out,
    ensures
        ({
            let left = reserve_out - quoted_output(reserve_in, reserve_out, amount_in, fee_bps);
            &&& (reserve_in + amount_in) * left >= reserve_in * reserve_out
            &&& fee_bps > 0 ==> (reserve_in + amount_in) * left > reserve_in * reserve_out
        }),
{
    let eff = effective_input(amount_in, fee_bps);
    let out = quoted_output(reserve_in, reserve_out, amount_in, fee_bps);
    let left = reserve_out - out;
    let d = reserve_in + eff;
    assert(0 <= eff <= amount_in) by (nonlinear_arith)
        requires
            eff == amount_in * (10000 - fee_bps) / 10000,
            amount_in > 0,
            0 <= fee_bps < 10000,
    ;
    if fee_bps > 0 {
        assert(eff < amount_in) by (nonlinear_arith)
            requires
                eff == amount_in * (10000 - fee_bps) / 10000,
                amount_in > 0,
                0 < fee_bps < 10000,
        ;
    }
    assert(out * d <= eff * reserve_out) by (nonlinear_arith)
        requires
            out == eff * reserve_out / d,
            d > 0,
    ;
    assert(left * d >= reserve_in * reserve_out) by (nonlinear_arith)
        requires
            out * d <= eff * reserve_out,
            left == reserve_out - out,
            d == reserve_in + eff,
    ;
    assert((reserve_in + amount_in) * left >= d * left + (amount_in - eff) * left) by (nonlinear_arith)
        requires
            d == reserve_in + eff,
    ;
    assert((amount_in - eff) * left >= 0) by (nonlinear_arith)
        requires
            amount_in >= eff,
            left > 0,
    ;
    if fee_bps > 0 {
        assert((amount_in - eff) * left > 0) by (nonlinear_arith)
            requires
                amount_in > eff,
                left > 0,
        ;
    }
}

/// Every accepted swap leaves the product of the two reserves at least where it
/// was, and strictly above it when the pool charges a fee.
pub proof fn lemma_swap_product_grows(
    pool: Pool,
    reserves: Reserves,
    input_asset_id: Key,
    amount_in: u64,
    minimum_amount_out: u64,
)
    requires
        pool.wf(),
        swap_error(pool, reserves, input_asset_id, amount_in, minimum_amount_out).is_none(),
    ensures
        ({
            let (reserve_in, reserve_out) = sides(pool, reserves, input_asset_id@);
            let out = quoted_output(reserve_in, reserve_out, amount_in as int, pool.fee_bps as int);
            let after = reserves_after_swap(reserves, input_asset_id@ == pool.asset_a_id@, amount_in as int, out);
            &&& after.0 * after.1 >= reserves.reserve_a * reserves.reserve_b
            &&& pool.fee_bps > 0 ==> after.0 * after.1 > reserves.reserve_a * reserves.reserve_b
        }),
{
    let (reserve_in, reserve_out) = sides(pool, reserves, input_asset_id@);
    let out = quoted_output(reserve_in, reserve_out, amount_in as int, pool.fee_bps as int);
    lemma_product_after_trade(reserve_in, reserve_out, amount_in as int, pool.fee_bps as int);
    let new_in = reserve_in + amount_in;
    let new_out = reserve_out - out;
    assert(new_out * new_in == new_in * new_out) by (nonlinear_arith);
    assert(reserve_out * reserve_in == reserve_in * reserve_out) by (nonlinear_arith);
}

} // verus!
