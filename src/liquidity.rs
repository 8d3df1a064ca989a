//! Issuing shares for deposits and redeeming them for withdrawals.
use vstd::prelude::*;

use crate::errors::ErrorCode;
use crate::math::{floor_sqrt, is_floor_sqrt, lemma_floor_sqrt_at_least, to_u64, wide_mul};
use crate::state::{Pool, Reserves, MINIMUM_LIQUIDITY};

verus! {

/// The companion amount of B for a deposit of `amount_a`: `ceil(amount_a * reserve_b / reserve_a)`.
pub open spec fn required_amount_b(amount_a: int, reserve_a: int, reserve_b: int) -> int {
    (amount_a * reserve_b + reserve_a - 1) / reserve_a
}

/// Shares for a deposit into a pool that already has some: the smaller of the two
/// sides' `floor(supply * amount / reserve)`, so that nothing is over-minted.
pub open spec fn proportional_shares(
    supply: int,
    amount_a: int,
    reserve_a: int,
    amount_b: int,
    reserve_b: int,
) -> int {
    let by_a = supply * amount_a / reserve_a;
    let by_b = supply * amount_b / reserve_b;
    if by_a <= by_b {
        by_a
    } else {
        by_b
    }
}

/// The pool with a new share count and nothing else changed.
pub open spec fn with_supply(pool: Pool, supply: int) -> Pool {
    Pool { total_lp_supply: supply as u64, ..pool }
}

/// What `add_liquidity` refuses, in the order it checks.
pub open spec fn add_liquidity_error(
    pool: Pool,
    reserves: Reserves,
    amount_a: u64,
    amount_b: u64,
    min_lp_out: u64,
) -> Option<ErrorCode> {
    let supply = pool.total_lp_supply as int;
    let ra = reserves.reserve_a as int;
    let rb = reserves.reserve_b as int;
    let shares = proportional_shares(supply, amount_a as int, ra, amount_b as int, rb);
    if amount_a == 0 || amount_b == 0 {
        Some(ErrorCode::ZeroAmount)
    } else if !pool.consistent_with(reserves) {
        Some(ErrorCode::CalculationFailure)
    } else if ra + amount_a > u64::MAX || rb + amount_b > u64::MAX {
        Some(ErrorCode::CalculationFailure)
    } else if supply == 0 {
        if amount_a * amount_b < MINIMUM_LIQUIDITY * MINIMUM_LIQUIDITY {
            Some(ErrorCode::CalculationFailure)
        } else if amount_a * amount_b < min_lp_out * min_lp_out {
            Some(ErrorCode::SlippageExceeded)
        } else {
            None
        }
    } else if amount_b != required_amount_b(amount_a as int, ra, rb) {
        Some(ErrorCode::InvalidRatio)
    } else if supply + shares > u64::MAX {
        Some(ErrorCode::CalculationFailure)
    } else if shares < min_lp_out {
        Some(ErrorCode::SlippageExceeded)
    } else {
        None
    }
}

/// `shares` is what a deposit of `(amount_a, amount_b)` mints: the integer square
/// root of `amount_a * amount_b` into an empty pool, proportional shares otherwise.
pub open spec fn deposit_shares(pool: Pool, reserves: Reserves, amount_a: int, amount_b: int, shares: int) -> bool {
    if pool.total_lp_supply == 0 {
        is_floor_sqrt(amount_a * amount_b, shares)
    } else {
        shares == proportional_shares(
            pool.total_lp_supply as int,
            amount_a,
            reserves.reserve_a as int,
            amount_b,
            reserves.reserve_b as int,
        )
    }
}

/// What a withdrawal of `shares` out of `supply` pays from `reserve`: `floor(reserve * shares / supply)`.
pub open spec fn withdrawal_amount(reserve: int, shares: int, supply: int) -> int {
    reserve * shares / supply
}

/// What `remove_liquidity` refuses, in the order it checks.
pub open spec fn remove_liquidity_error(
    pool: Pool,
    reserves: Reserves,
    lp_shares_to_burn: u64,
    min_amount_a_out: u64,
    min_amount_b_out: u64,
) -> Option<ErrorCode> {
    let supply = pool.total_lp_supply as int;
    if lp_shares_to_burn == 0 {
        Some(ErrorCode::ZeroAmount)
    } else if !pool.consistent_with(reserves) {
        Some(ErrorCode::CalculationFailure)
    } else if lp_shares_to_burn > supply {
        Some(ErrorCode::CalculationFailure)
    } else if withdrawal_amount(reserves.reserve_a as int, lp_shares_to_burn as int, supply)
        < min_amount_a_out || withdrawal_amount(reserves.reserve_b as int, lp_shares_to_burn as int, supply)
        < min_amount_b_out {
        Some(ErrorCode::SlippageExceeded)
    } else {
        None
    }
}

/// An accepted deposit: the shares minted, the amounts taken in, and the reserves
/// once the custody layer has moved them.
#[derive(Clone, Copy, Debug, PartialEq, Eq)]
pub struct Deposit {
    pub lp_minted: u64,
    pub amount_a: u64,
    pub amount_b: u64,
    pub reserves_after: Reserves,
}

/// An accepted withdrawal: the amounts paid out, and the reserves afterwards.
#[derive(Clone, Copy, Debug, PartialEq, Eq, Structural)]
pub struct Withdrawal {
    pub amount_a: u64,
    pub amount_b: u64,
    pub reserves_after: Reserves,
}

/// Deposits `(amount_a, amount_b)` into `pool`, whose custodied balances are
/// `reserves`. The first deposit sets the price; later ones must supply exactly
/// the companion amount of B for their A. On success the share count grows by the
/// shares minted; on failure the pool is unchanged.
pub fn add_liquidity(
    pool: &mut Pool,
    reserves: Reserves,
    amount_a: u64,
    amount_b: u64,
    min_lp_out: u64,
) -> (r: Result<Deposit, ErrorCode>)
    requires
        old(pool).wf(),
    ensures
        match r {
            Ok(d) => {
                &&& add_liquidity_error(*old(pool), reserves, amount_a, amount_b, min_lp_out).is_none()
                &&& deposit_shares(*old(pool), reserves, amount_a as int, amount_b as int, d.lp_minted as int)
                &&& d.amount_a == amount_a
                &&& d.amount_b == amount_b
                &&& d.reserves_after.reserve_a == reserves.reserve_a + amount_a
                &&& d.reserves_after.reserve_b == reserves.reserve_b + amount_b
                &&& *final(pool) == with_supply(*old(pool), old(pool).total_lp_supply + d.lp_minted)
                &&& final(pool).consistent_with(d.reserves_after)
            },
            Err(e) => {
                &&& add_liquidity_error(*old(pool), reserves, amount_a, amount_b, min_lp_out) == Some(e)
                &&& *final(pool) == *old(pool)
            },
        },
{
    if amount_a == 0 || amount_b == 0 {
        return Err(ErrorCode::ZeroAmount);
    }
    if !pool.is_consistent_with(reserves) {
        return Err(ErrorCode::CalculationFailure);
    }
    let new_a: u64 = to_u64(reserves.reserve_a as u128 + amount_a as u128)?;
    let new_b: u64 = to_u64(reserves.reserve_b as u128 + amount_b as u128)?;
    let supply = pool.total_lp_supply;
    let shares: u64;
    if supply == 0 {
        let product = wide_mul(amount_a, amount_b);
        shares = floor_sqrt(product);
        proof {
            lemma_floor_sqrt_at_least(product as int, shares as int, MINIMUM_LIQUIDITY as int);
            lemma_floor_sqrt_at_least(product as int, shares as int, min_lp_out as int);
        }
        if shares < MINIMUM_LIQUIDITY {
            return Err(ErrorCode::CalculationFailure);
        }
        if shares < min_lp_out {
            return Err(ErrorCode::SlippageExceeded);
        }
    } else {
        let ra = reserves.reserve_a;
        let rb = reserves.reserve_b;
        let scaled_a: u128 = wide_mul(amount_a, rb);
        assert(scaled_a <= 0xFFFF_FFFF_FFFF_FFFFu128 * 0xFFFF_FFFF_FFFF_FFFFu128) by (nonlinear_arith)
            requires
                scaled_a == amount_a * rb,
                amount_a <= 0xFFFF_FFFF_FFFF_FFFFu64,
                rb <= 0xFFFF_FFFF_FFFF_FFFFu64,
        ;
        let required_b: u128 = (scaled_a + (ra - 1) as u128) / (ra as u128);
        if required_b != amount_b as u128 {
            return Err(ErrorCode::InvalidRatio);
        }
        let by_a: u128 = wide_mul(supply, amount_a) / (ra as u128);
        let by_b: u128 = wide_mul(supply, amount_b) / (rb as u128);
        let smaller: u128 = if by_a <= by_b { by_a } else { by_b };
        shares = to_u64(smaller)?;
        if supply as u128 + shares as u128 > u64::MAX as u128 {
            return Err(ErrorCode::CalculationFailure);
        }
        if shares < min_lp_out {
            return Err(ErrorCode::SlippageExceeded);
        }
    }
    pool.total_lp_supply = supply + shares;
    Ok(
        Deposit {
            lp_minted: shares,
            amount_a,
            amount_b,
            reserves_after: Reserves { reserve_a: new_a, reserve_b: new_b },
        },
    )
}

/// Burns `lp_shares_to_burn` shares of `pool` and pays out the matching fraction of
/// each reserve, rounded down. On failure the pool is unchanged.
pub fn remove_liquidity(
    pool: &mut Pool,
    reserves: Reserves,
    lp_shares_to_burn: u64,
    min_amount_a_out: u64,
    min_amount_b_out: u64,
) -> (r: Result<Withdrawal, ErrorCode>)
    requires
        old(pool).wf(),
    ensures
        match r {
            Ok(w) => {
                let supply = old(pool).total_lp_supply as int;
                &&& remove_liquidity_error(
                    *old(pool),
                    reserves,
                    lp_shares_to_burn,
                    min_amount_a_out,
                    min_amount_b_out,
                ).is_none()
                &&& w.amount_a == withdrawal_amount(reserves.reserve_a as int, lp_shares_to_burn as int, supply)
                &&& w.amount_b == withdrawal_amount(reserves.reserve_b as int, lp_shares_to_burn as int, supply)
                &&& w.reserves_after.reserve_a == reserves.reserve_a - w.amount_a
                &&& w.reserves_after.reserve_b == reserves.reserve_b - w.amount_b
                &&& *final(pool) == with_supply(*old(pool), supply - lp_shares_to_burn)
                &&& final(pool).consistent_with(w.reserves_after)
            },
            Err(e) => {
                &&& remove_liquidity_error(
                    *old(pool),
                    reserves,
                    lp_shares_to_burn,
                    min_amount_a_out,
                    min_amount_b_out,
                ) == Some(e)
                &&& *final(pool) == *old(pool)
            },
        },
{
    if lp_shares_to_burn == 0 {
        return Err(ErrorCode::ZeroAmount);
    }
    if !pool.is_consistent_with(reserves) {
        return Err(ErrorCode::CalculationFailure);
    }
    let supply = pool.total_lp_supply;
    if lp_shares_to_burn > supply {
        return Err(ErrorCode::CalculationFailure);
    }
    let ra = reserves.reserve_a;
    let rb = reserves.reserve_b;
    let out_a: u128 = wide_mul(ra, lp_shares_to_burn) / (supply as u128);
    let out_b: u128 = wide_mul(rb, lp_shares_to_burn) / (supply as u128);
    proof {
        lemma_share_of_reserve(ra as int, lp_shares_to_burn as int, supply as int);
        lemma_share_of_reserve(rb as int, lp_shares_to_burn as int, supply as int);
    }
    if out_a < min_amount_a_out as u128 || out_b < min_amount_b_out as u128 {
        return Err(ErrorCode::SlippageExceeded);
    }
    let amount_a = out_a as u64;
    let amount_b = out_b as u64;
    pool.total_lp_supply = supply - lp_shares_to_burn;
    Ok(
        Withdrawal {
            amount_a,
            amount_b,
            reserves_after: Reserves { reserve_a: ra - amount_a, reserve_b: rb - amount_b },
        },
    )
}

/// A fraction `shares / supply` of a reserve is at most the reserve, and all of it
/// only when every share is burned.
proof fn lemma_share_of_reserve(reserve: int, shares: int, supply: int)
    requires
        reserve > 0,
        0 < shares <= supply,
    ensures
        withdrawal_amount(reserve, shares, supply) <= reserve,
        shares == supply ==> withdrawal_amount(reserve, shares, supply) == reserve,
        shares < supply ==> withdrawal_amount(reserve, shares, supply) < reserve,
{
    let q = reserve * shares / supply;
    if shares == supply {
        assert(reserve * supply / supply == reserve) by (nonlinear_arith)
            requires
                supply > 0,
        ;
    } else {
        assert(q < reserve) by (nonlinear_arith)
            requires
                q == reserve * shares / supply,
                reserve > 0,
                0 < shares < supply,
        ;
    }
}

/// A deposit into a pool that already has shares matches the pool's ratio, and
/// mints exactly `floor(supply * amount_a / reserve_a)` shares: the minted fraction of
/// the supply equals the deposited fraction of reserve A, short by less than one share.
pub proof fn lemma_proportional_minting(
    pool: Pool,
    reserves: Reserves,
    amount_a: u64,
    amount_b: u64,
    min_lp_out: u64,
)
    requires
        pool.wf(),
        pool.total_lp_supply > 0,
        add_liquidity_error(pool, reserves, amount_a, amount_b, min_lp_out).is_none(),
    ensures
        ({
            let supply = pool.total_lp_supply as int;
            let ra = reserves.reserve_a as int;
            let shares = proportional_shares(supply, amount_a as int, ra, amount_b as int, reserves.reserve_b as int);
            &&& shares == supply * amount_a / ra
            &&& shares * ra <= supply * amount_a < (shares + 1) * ra
        }),
{
    let supply = pool.total_lp_supply as int;
    let a = amount_a as int;
    let b = amount_b as int;
    let ra = reserves.reserve_a as int;
    let rb = reserves.reserve_b as int;
    let n = a * rb + ra - 1;
    // b is the ceiling of a * rb / ra, so b * ra covers a * rb.
    assert(b * ra >= a * rb) by (nonlinear_arith)
        requires
            b == n / ra,
            n == a * rb + ra - 1,
            ra > 0,
    ;
    let by_a = supply * a / ra;
    assert(by_a * ra <= supply * a < (by_a + 1) * ra) by (nonlinear_arith)
        requires
            by_a == supply * a / ra,
            ra > 0,
    ;
    assert(by_a * rb <= supply * b) by (nonlinear_arith)
        requires
            by_a * ra <= supply * a,
            b * ra >= a * rb,
            ra > 0,
            rb > 0,
            supply > 0,
    ;
    assert(by_a <= supply * b / rb) by (nonlinear_arith)
        requires
            by_a * rb <= supply * b,
            rb > 0,
    ;
}

/// Depositing `(amount_a, amount_b)` and at once withdrawing every share it minted
/// is accepted (with no slippage bound) and pays back no more than was deposited.
pub proof fn lemma_deposit_withdraw_round_trip(
    pool: Pool,
    reserves: Reserves,
    amount_a: u64,
    amount_b: u64,
    min_lp_out: u64,
    shares: u64,
)
    requires
        pool.wf(),
        add_liquidity_error(pool, reserves, amount_a, amount_b, min_lp_out).is_none(),
        deposit_shares(pool, reserves, amount_a as int, amount_b as int, shares as int),
        shares > 0,
    ensures
        ({
            let supply_after = pool.total_lp_supply + shares;
            let pool_after = with_supply(pool, supply_after);
            let reserves_after = Reserves {
                reserve_a: (reserves.reserve_a + amount_a) as u64,
                reserve_b: (reserves.reserve_b + amount_b) as u64,
            };
            &&& remove_liquidity_error(pool_after, reserves_after, shares, 0, 0).is_none()
            &&& withdrawal_amount(reserves_after.reserve_a as int, shares as int, supply_after) <= amount_a
            &&& withdrawal_amount(reserves_after.reserve_b as int, shares as int, supply_after) <= amount_b
        }),
{
    let supply = pool.total_lp_supply as int;
    let m = shares as int;
    let a = amount_a as int;
    let b = amount_b as int;
    let ra = reserves.reserve_a as int;
    let rb = reserves.reserve_b as int;
    if supply > 0 {
        lemma_proportional_minting(pool, reserves, amount_a, amount_b, min_lp_out);
        let by_b = supply * b / rb;
        assert(by_b * rb <= supply * b) by (nonlinear_arith)
            requires
                by_b == supply * b / rb,
                rb > 0,
        ;
        assert(m <= by_b);
        assert(m * rb <= by_b * rb) by (nonlinear_arith)
            requires
                m <= by_b,
                rb > 0,
        ;
    }
    // In both cases m * reserve <= supply * amount, which bounds each payout.
    assert(m * ra <= supply * a);
    assert(m * rb <= supply * b);
    assert((ra + a) * m / (supply + m) <= a) by (nonlinear_arith)
        requires
            m * ra <= supply * a,
            m > 0,
            supply >= 0,
            a >= 0,
    ;
    assert((rb + b) * m / (supply + m) <= b) by (nonlinear_arith)
        requires
            m * rb <= supply * b,
            m > 0,
            supply >= 0,
            b >= 0,
    ;
}

/// A deposit never lowers what one share is worth: on each side, the reserve per
/// share after the deposit is at least the reserve per share before it.
pub proof fn lemma_deposit_keeps_share_value(
    pool: Pool,
    reserves: Reserves,
    amount_a: u64,
    amount_b: u64,
    min_lp_out: u64,
    shares: u64,
)
    requires
        pool.wf(),
        pool.total_lp_supply > 0,
        add_liquidity_error(pool, reserves, amount_a, amount_b, min_lp_out).is_none(),
        deposit_shares(pool, reserves, amount_a as int, amount_b as int, shares as int),
    ensures
        ({
            let supply = pool.total_lp_supply as int;
            let supply_after = supply + shares;
            &&& (reserves.reserve_a + amount_a) * supply >= reserves.reserve_a * supply_after
            &&& (reserves.reserve_b + amount_b) * supply >= reserves.reserve_b * supply_after
        }),
{
    let supply = pool.total_lp_supply as int;
    let m = shares as int;
    let a = amount_a as int;
    let b = amount_b as int;
    let ra = reserves.reserve_a as int;
    let rb = reserves.reserve_b as int;
    lemma_proportional_minting(pool, reserves, amount_a, amount_b, min_lp_out);
    let by_b = supply * b / rb;
    assert(by_b * rb <= supply * b) by (nonlinear_arith)
        requires
            by_b == supply * b / rb,
            rb > 0,
    ;
    assert(m * rb <= by_b * rb) by (nonlinear_arith)
        requires
            m <= by_b,
            rb > 0,
    ;
    assert((ra + a) * supply >= ra * (supply + m)) by (nonlinear_arith)
        requires
            m * ra <= supply * a,
    ;
    assert((rb + b) * supply >= rb * (supply + m)) by (nonlinear_arith)
        requires
            m * rb <= supply * b,
    ;
}

/// A withdrawal never lowers what a remaining share is worth: on each side, the
/// reserve per share after the withdrawal is at least the reserve per share before it.
pub proof fn lemma_withdrawal_keeps_share_value(
    pool: Pool,
    reserves: Reserves,
    lp_shares_to_burn: u64,
    min_amount_a_out: u64,
    min_amount_b_out: u64,
)
    requires
        pool.wf(),
        remove_liquidity_error(pool, reserves, lp_shares_to_burn, min_amount_a_out, min_amount_b_out).is_none(),
    ensures
        ({
            let supply = pool.total_lp_supply as int;
            let burned = lp_shares_to_burn as int;
            let out_a = withdrawal_amount(reserves.reserve_a as int, burned, supply);
            let out_b = withdrawal_amount(reserves.reserve_b as int, burned, supply);
            &&& (reserves.reserve_a - out_a) * supply >= reserves.reserve_a * (supply - burned)
            &&& (reserves.reserve_b - out_b) * supply >= reserves.reserve_b * (supply - burned)
        }),
{
    let supply = pool.total_lp_supply as int;
    let burned = lp_shares_to_burn as int;
    let ra = reserves.reserve_a as int;
    let rb = reserves.reserve_b as int;
    assert((ra - ra * burned / supply) * supply >= ra * (supply - burned)) by (nonlinear_arith)
        requires
            supply > 0,
            ra >= 0,
            burned >= 0,
    ;
    assert((rb - rb * burned / supply) * supply >= rb * (supply - burned)) by (nonlinear_arith)
        requires
            supply > 0,
            rb >= 0,
            burned >= 0,
    ;
}

} // verus!
