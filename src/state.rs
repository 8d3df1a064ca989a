//! The pool record, the reserve snapshot, and the invariants that tie them together.
use vstd::prelude::*;

use crate::errors::ErrorCode;
use crate::key::{first_difference, is_zero_key, key_less, precedes, same_key, zero_key, Key};

verus! {

/// Basis points in one whole: a fee rate is a number of these.
pub const FEE_DENOMINATOR: u64 = 10000;

/// The smallest number of shares that a first deposit may mint.
pub const MINIMUM_LIQUIDITY: u64 = 1000;

/// The configuration of one trading pair and the count of its outstanding shares.
/// Only `total_lp_supply` changes after initialization, and only through the
/// liquidity operations.
#[derive(Clone, Copy, Debug, PartialEq, Eq)]
pub struct Pool {
    /// The first of the two assets in byte order.
    pub asset_a_id: Key,
    /// The second of the two assets in byte order.
    pub asset_b_id: Key,
    /// Where the reserve of asset A is held (owned by the custody layer).
    pub vault_a_ref: Key,
    /// Where the reserve of asset B is held (owned by the custody layer).
    pub vault_b_ref: Key,
    /// The asset that represents shares of this pool.
    pub lp_asset_id: Key,
    /// The swap fee, in basis points.
    pub fee_bps: u64,
    /// The number of shares outstanding.
    pub total_lp_supply: u64,
}

/// The custodied balances of the two assets, read fresh for every operation.
#[derive(Clone, Copy, Debug, PartialEq, Eq, Structural)]
pub struct Reserves {
    pub reserve_a: u64,
    pub reserve_b: u64,
}

impl Pool {
    /// The pool's own invariant: a canonically ordered pair of distinct, nonzero
    /// assets, a share asset that is neither of them, and a fee below one whole.
    pub open spec fn wf(&self) -> bool {
        &&& self.asset_a_id@ != zero_key()
        &&& self.asset_b_id@ != zero_key()
        &&& key_less(self.asset_a_id@, self.asset_b_id@)
        &&& self.lp_asset_id@ != self.asset_a_id@
        &&& self.lp_asset_id@ != self.asset_b_id@
        &&& self.fee_bps < FEE_DENOMINATOR
    }

    /// The pool holds no shares exactly when both reserves are empty, and both are
    /// positive once it does.
    pub open spec fn consistent_with(&self, reserves: Reserves) -> bool {
        reserves_consistent(self.total_lp_supply as int, reserves.reserve_a as int, reserves.reserve_b as int)
    }

    /// Whether the pool satisfies its own invariant.
    pub fn is_well_formed(&self) -> (r: bool)
        ensures
            r == self.wf(),
    {
        !is_zero_key(&self.asset_a_id) && !is_zero_key(&self.asset_b_id) && precedes(&self.asset_a_id, &self.asset_b_id)
            && !same_key(&self.lp_asset_id, &self.asset_a_id) && !same_key(&self.lp_asset_id, &self.asset_b_id)
            && self.fee_bps < FEE_DENOMINATOR
    }

    /// Whether `reserves` satisfy the invariant against this pool's share supply.
    pub fn is_consistent_with(&self, reserves: Reserves) -> (r: bool)
        ensures
            r == self.consistent_with(reserves),
    {
        if self.total_lp_supply == 0 {
            reserves.reserve_a == 0 && reserves.reserve_b == 0
        } else {
            reserves.reserve_a > 0 && reserves.reserve_b > 0
        }
    }
}

/// Share supply and reserves agree: all zero, or all positive.
pub open spec fn reserves_consistent(supply: int, reserve_a: int, reserve_b: int) -> bool {
    if supply == 0 {
        reserve_a == 0 && reserve_b == 0
    } else {
        reserve_a > 0 && reserve_b > 0
    }
}

/// What `initialize_pool` refuses, in the order it checks.
pub open spec fn init_error(asset_x: Seq<u8>, asset_y: Seq<u8>, lp_asset_id: Seq<u8>, fee_bps: u64) -> Option<
    ErrorCode,
> {
    if asset_x == asset_y {
        Some(ErrorCode::InvalidRatio)
    } else if asset_x == zero_key() || asset_y == zero_key() {
        Some(ErrorCode::UnknownAsset)
    } else if lp_asset_id == asset_x || lp_asset_id == asset_y {
        Some(ErrorCode::InvalidRatio)
    } else if fee_bps >= FEE_DENOMINATOR {
        Some(ErrorCode::CalculationFailure)
    } else {
        None
    }
}

/// `pool` is the empty pool for the pair `{asset_x, asset_y}` in canonical order,
/// with its vaults following their assets.
pub open spec fn initialized_as(
    pool: Pool,
    asset_x: Key,
    asset_y: Key,
    vault_x: Key,
    vault_y: Key,
    lp_asset_id: Key,
    fee_bps: u64,
) -> bool {
    &&& pool.total_lp_supply == 0
    &&& pool.fee_bps == fee_bps
    &&& pool.lp_asset_id == lp_asset_id
    &&& if key_less(asset_x@, asset_y@) {
        pool.asset_a_id == asset_x && pool.asset_b_id == asset_y && pool.vault_a_ref == vault_x
            && pool.vault_b_ref == vault_y
    } else {
        pool.asset_a_id == asset_y && pool.asset_b_id == asset_x && pool.vault_a_ref == vault_y
            && pool.vault_b_ref == vault_x
    }
}

/// Creates the empty pool for the pair `{asset_x, asset_y}`, with `vault_x` holding
/// `asset_x` and `vault_y` holding `asset_y`. The key first in byte order becomes
/// side A, so a pair has one pool whichever order it is named in.
pub fn initialize_pool(
    asset_x: Key,
    asset_y: Key,
    vault_x: Key,
    vault_y: Key,
    lp_asset_id: Key,
    fee_bps: u64,
) -> (r: Result<Pool, ErrorCode>)
    ensures
        match r {
            Ok(pool) => {
                &&& init_error(asset_x@, asset_y@, lp_asset_id@, fee_bps).is_none()
                &&& pool.wf()
                &&& initialized_as(pool, asset_x, asset_y, vault_x, vault_y, lp_asset_id, fee_bps)
            },
            Err(e) => init_error(asset_x@, asset_y@, lp_asset_id@, fee_bps) == Some(e),
        },
{
    let diff = first_difference(&asset_x, &asset_y);
    if diff.is_none() {
        return Err(ErrorCode::InvalidRatio);
    }
    if is_zero_key(&asset_x) || is_zero_key(&asset_y) {
        return Err(ErrorCode::UnknownAsset);
    }
    if same_key(&lp_asset_id, &asset_x) || same_key(&lp_asset_id, &asset_y) {
        return Err(ErrorCode::InvalidRatio);
    }
    if fee_bps >= FEE_DENOMINATOR {
        return Err(ErrorCode::CalculationFailure);
    }
    let x_first = precedes(&asset_x, &asset_y);
    proof {
        if !x_first {
            // The keys differ first at i, and x does not come first there, so y does.
            let i = diff.unwrap() as int;
            if asset_x@[i] < asset_y@[i] {
                assert(key_less(asset_x@, asset_y@));
            }
            assert(key_less(asset_y@, asset_x@));
        }
    }
    let (asset_a_id, asset_b_id, vault_a_ref, vault_b_ref) = if x_first {
        (asset_x, asset_y, vault_x, vault_y)
    } else {
        (asset_y, asset_x, vault_y, vault_x)
    };
    Ok(Pool { asset_a_id, asset_b_id, vault_a_ref, vault_b_ref, lp_asset_id, fee_bps, total_lp_supply: 0 })
}

} // verus!
