//! The add-liquidity instruction: the accounts it names, and the custody orders
//! (transfers in, shares minted out) that an accepted deposit implies.
use vstd::prelude::*;

use crate::errors::ErrorCode;
use crate::key::Key;
use crate::liquidity::{add_liquidity, add_liquidity_error, deposit_shares, with_supply, Deposit};
use crate::state::{Pool, Reserves};

verus! {

/// An order to the custody layer: move `amount` from `from` to `to`, authorised by `authority`.
#[derive(Clone, Copy, Debug, PartialEq, Eq)]
pub struct Transfer {
    pub from: Key,
    pub to: Key,
    pub authority: Key,
    pub amount: u64,
}

/// An order to the custody layer: create `amount` units of asset `mint` in account
/// `to`, authorised by `authority`.
#[derive(Clone, Copy, Debug, PartialEq, Eq)]
pub struct MintTo {
    pub mint: Key,
    pub to: Key,
    pub authority: Key,
    pub amount: u64,
}

/// The accounts of one add-liquidity request, with the pool record and the reserve
/// snapshot read for it.
#[derive(Clone, Copy, Debug, PartialEq, Eq)]
pub struct AddLiquidity {
    pub pool: Pool,
    pub reserves: Reserves,
    /// The caller, who authorises the transfers out of their accounts.
    pub user: Key,
    pub user_token_account_a: Key,
    pub user_token_account_b: Key,
    /// Where the minted shares go.
    pub user_lp_token_account: Key,
    /// The pool's handle that the custody layer accepts for minting shares.
    pub pool_authority: Key,
}

/// The orders that carry out an accepted deposit, with the deposit itself.
#[derive(Clone, Copy, Debug, PartialEq, Eq)]
pub struct AddLiquidityOrders {
    pub deposit: Deposit,
    pub transfer_a: Transfer,
    pub transfer_b: Transfer,
    pub mint_lp: MintTo,
}

impl AddLiquidity {
    /// The transfer of `amount` of asset A from the caller into vault A.
    pub open spec fn transfer_a_spec(&self, amount: u64) -> Transfer {
        Transfer {
            from: self.user_token_account_a,
            to: self.pool.vault_a_ref,
            authority: self.user,
            amount,
        }
    }

    /// The transfer of `amount` of asset B from the caller into vault B.
    pub open spec fn transfer_b_spec(&self, amount: u64) -> Transfer {
        Transfer {
            from: self.user_token_account_b,
            to: self.pool.vault_b_ref,
            authority: self.user,
            amount,
        }
    }

    /// The minting of `amount` shares to the caller's share account.
    pub open spec fn mint_lp_spec(&self, amount: u64) -> MintTo {
        MintTo {
            mint: self.pool.lp_asset_id,
            to: self.user_lp_token_account,
            authority: self.pool_authority,
            amount,
        }
    }

    pub fn transfer_a_context(&self, amount: u64) -> (r: Transfer)
        ensures
            r == self.transfer_a_spec(amount),
    {
        Transfer {
            from: self.user_token_account_a,
            to: self.pool.vault_a_ref,
            authority: self.user,
            amount,
        }
    }

    pub fn transfer_b_context(&self, amount: u64) -> (r: Transfer)
        ensures
            r == self.transfer_b_spec(amount),
    {
        Transfer {
            from: self.user_token_account_b,
            to: self.pool.vault_b_ref,
            authority: self.user,
            amount,
        }
    }

    pub fn mint_lp_context(&self, amount: u64) -> (r: MintTo)
        ensures
            r == self.mint_lp_spec(amount),
    {
        MintTo {
            mint: self.pool.lp_asset_id,
            to: self.user_lp_token_account,
            authority: self.pool_authority,
            amount,
        }
    }
}

/// Validates a deposit of `(amount_a, amount_b)` against `ctx`, records the new
/// share count in `ctx.pool`, and returns the orders that move the funds. Nothing
/// is ordered, and `ctx` is unchanged, when the deposit is refused.
pub fn handler(ctx: &mut AddLiquidity, amount_a: u64, amount_b: u64, min_lp_out: u64) -> (r: Result<
    AddLiquidityOrders,
    ErrorCode,
>)
    requires
        old(ctx).pool.wf(),
    ensures
        match r {
            Ok(o) => {
                let minted = o.deposit.lp_minted;
                &&& add_liquidity_error(old(ctx).pool, old(ctx).reserves, amount_a, amount_b, min_lp_out).is_none()
                &&& deposit_shares(old(ctx).pool, old(ctx).reserves, amount_a as int, amount_b as int, minted as int)
                &&& o.deposit.amount_a == amount_a
                &&& o.deposit.amount_b == amount_b
                &&& o.deposit.reserves_after.reserve_a == old(ctx).reserves.reserve_a + amount_a
                &&& o.deposit.reserves_after.reserve_b == old(ctx).reserves.reserve_b + amount_b
                &&& o.transfer_a == old(ctx).transfer_a_spec(amount_a)
                &&& o.transfer_b == old(ctx).transfer_b_spec(amount_b)
                &&& o.mint_lp == old(ctx).mint_lp_spec(minted)
                &&& final(ctx).pool == with_supply(old(ctx).pool, old(ctx).pool.total_lp_supply + minted)
                &&& final(ctx).reserves == old(ctx).reserves
                &&& final(ctx).user == old(ctx).user
                &&& final(ctx).user_token_account_a == old(ctx).user_token_account_a
                &&& final(ctx).user_token_account_b == old(ctx).user_token_account_b
                &&& final(ctx).user_lp_token_account == old(ctx).user_lp_token_account
                &&& final(ctx).pool_authority == old(ctx).pool_authority
            },
            Err(e) => {
                &&& add_liquidity_error(old(ctx).pool, old(ctx).reserves, amount_a, amount_b, min_lp_out) == Some(e)
                &&& *final(ctx) == *old(ctx)
            },
        },
{
    let before = *ctx;
    let deposit = add_liquidity(&mut ctx.pool, ctx.reserves, amount_a, amount_b, min_lp_out)?;
    let transfer_a = before.transfer_a_context(deposit.amount_a);
    let transfer_b = before.transfer_b_context(deposit.amount_b);
    let mint_lp = before.mint_lp_context(deposit.lp_minted);
    Ok(AddLiquidityOrders { deposit, transfer_a, transfer_b, mint_lp })
}

} // verus!
