use encode_t8_dex::liquidity::{Deposit, Withdrawal};
use encode_t8_dex::math::{checked_add, checked_div, checked_mul, checked_sub, floor_sqrt, to_u64, wide_mul};
use encode_t8_dex::state::{FEE_DENOMINATOR, MINIMUM_LIQUIDITY};
use encode_t8_dex::{
    PoolRegistry,
    add_liquidity, effective_amount_in, get_amount_out, handler, initialize_pool, remove_liquidity, swap,
    AddLiquidity, ErrorCode, MintTo, Pool, Reserves, Transfer,
};

fn pool_with(fee_bps: u64, supply: u64) -> Pool {
    let mut pool = initialize_pool(key(1), key(2), key(10), key(20), key(99), fee_bps).unwrap();
    pool.total_lp_supply = supply;
    pool
}

fn key(n: u8) -> [u8; 32] {
    let mut k = [0u8; 32];
    k[31] = n;
    k
}

fn reserves(a: u64, b: u64) -> Reserves {
    Reserves { reserve_a: a, reserve_b: b }
}

#[test]
fn initialize_orders_the_pair() {
    let pool = initialize_pool(key(2), key(1), key(20), key(10), key(99), 30).unwrap();
    assert_eq!(pool.asset_a_id, key(1));
    assert_eq!(pool.asset_b_id, key(2));
    assert_eq!(pool.vault_a_ref, key(10));
    assert_eq!(pool.vault_b_ref, key(20));
    assert_eq!(pool.lp_asset_id, key(99));
    assert_eq!(pool.fee_bps, 30);
    assert_eq!(pool.total_lp_supply, 0);
    assert_eq!(initialize_pool(key(1), key(2), key(10), key(20), key(99), 30).unwrap(), pool);
}

#[test]
fn initialize_rejects_bad_pairs_and_fees() {
    assert_eq!(initialize_pool(key(3), key(3), key(10), key(20), key(99), 30), Err(ErrorCode::InvalidRatio));
    assert_eq!(initialize_pool(key(0), key(3), key(10), key(20), key(99), 30), Err(ErrorCode::UnknownAsset));
    assert_eq!(initialize_pool(key(1), key(2), key(10), key(20), key(99), FEE_DENOMINATOR), Err(ErrorCode::CalculationFailure));
    assert!(initialize_pool(key(1), key(2), key(10), key(20), key(99), FEE_DENOMINATOR - 1).is_ok());
    assert_eq!(initialize_pool(key(1), key(2), key(10), key(20), key(1), 30), Err(ErrorCode::InvalidRatio));
    assert_eq!(initialize_pool(key(1), key(2), key(10), key(20), key(2), 30), Err(ErrorCode::InvalidRatio));
}

#[test]
fn pair_order_is_lexicographic_on_bytes() {
    let mut high_first_byte = [0u8; 32];
    high_first_byte[0] = 1;
    let pool = initialize_pool(high_first_byte, key(200), key(10), key(20), key(99), 30).unwrap();
    assert_eq!(pool.asset_a_id, key(200));
    assert_eq!(pool.asset_b_id, high_first_byte);
    assert_eq!(pool.vault_a_ref, key(20));
    assert_eq!(pool.vault_b_ref, key(10));
}

#[test]
fn first_deposit_mints_square_root() {
    let mut pool = pool_with(30, 0);
    let d = add_liquidity(&mut pool, reserves(0, 0), 4_000, 9_000, 0).unwrap();
    assert_eq!(
        d,
        Deposit { lp_minted: 6_000, amount_a: 4_000, amount_b: 9_000, reserves_after: reserves(4_000, 9_000) }
    );
    assert_eq!(pool.total_lp_supply, 6_000);
}

#[test]
fn first_deposit_rounds_square_root_down() {
    let mut pool = pool_with(30, 0);
    let d = add_liquidity(&mut pool, reserves(0, 0), 1_000, 1_001, 0).unwrap();
    assert_eq!(d.lp_minted, 1_000);
}

#[test]
fn first_deposit_below_floor_is_rejected() {
    let mut pool = pool_with(30, 0);
    assert_eq!(MINIMUM_LIQUIDITY, 1_000);
    assert_eq!(add_liquidity(&mut pool, reserves(0, 0), 999, 1_000, 0), Err(ErrorCode::CalculationFailure));
    assert_eq!(pool.total_lp_supply, 0);
}

#[test]
fn first_deposit_slippage() {
    let mut pool = pool_with(30, 0);
    assert_eq!(add_liquidity(&mut pool, reserves(0, 0), 4_000, 9_000, 6_001), Err(ErrorCode::SlippageExceeded));
    assert_eq!(pool.total_lp_supply, 0);
    assert!(add_liquidity(&mut pool, reserves(0, 0), 4_000, 9_000, 6_000).is_ok());
}

#[test]
fn proportional_deposit() {
    let mut pool = pool_with(30, 1_000_000);
    let d = add_liquidity(&mut pool, reserves(1_000_000, 2_000_000), 1_000, 2_000, 1_000).unwrap();
    assert_eq!(d.lp_minted, 1_000);
    assert_eq!(d.reserves_after, reserves(1_001_000, 2_002_000));
    assert_eq!(pool.total_lp_supply, 1_001_000);
}

#[test]
fn companion_amount_is_rounded_up() {
    let mut pool = pool_with(30, 10);
    assert_eq!(add_liquidity(&mut pool, reserves(3, 7), 1, 2, 0), Err(ErrorCode::InvalidRatio));
    assert_eq!(add_liquidity(&mut pool, reserves(3, 7), 1, 4, 0), Err(ErrorCode::InvalidRatio));
    assert_eq!(pool.total_lp_supply, 10);
    let d = add_liquidity(&mut pool, reserves(3, 7), 1, 3, 0).unwrap();
    assert_eq!(d.lp_minted, 3);
    assert_eq!(pool.total_lp_supply, 13);
}

#[test]
fn proportional_deposit_slippage() {
    let mut pool = pool_with(30, 1_000_000);
    let before = pool;
    let r = add_liquidity(&mut pool, reserves(1_000_000, 2_000_000), 1_000, 2_000, 1_001);
    assert_eq!(r, Err(ErrorCode::SlippageExceeded));
    assert_eq!(pool, before);
}

#[test]
fn deposit_on_inconsistent_snapshot_fails() {
    let mut pool = pool_with(30, 0);
    assert_eq!(add_liquidity(&mut pool, reserves(5, 5), 5, 5, 0), Err(ErrorCode::CalculationFailure));
    let mut pool = pool_with(30, 5);
    assert_eq!(add_liquidity(&mut pool, reserves(0, 5), 5, 5, 0), Err(ErrorCode::CalculationFailure));
}

#[test]
fn deposit_overflowing_reserve_fails() {
    let mut pool = pool_with(30, 1);
    assert_eq!(
        add_liquidity(&mut pool, reserves(u64::MAX - 1, 1), 5, 1, 0),
        Err(ErrorCode::CalculationFailure)
    );
    assert_eq!(pool.total_lp_supply, 1);
}

#[test]
fn withdraw_pays_fraction_of_reserves() {
    let mut pool = pool_with(30, 1_000_000);
    let w = remove_liquidity(&mut pool, reserves(1_000_000, 2_000_000), 250_000, 250_000, 500_000).unwrap();
    assert_eq!(w, Withdrawal { amount_a: 250_000, amount_b: 500_000, reserves_after: reserves(750_000, 1_500_000) });
    assert_eq!(pool.total_lp_supply, 750_000);
}

#[test]
fn withdraw_rounds_down() {
    let mut pool = pool_with(30, 3);
    let w = remove_liquidity(&mut pool, reserves(10, 11), 1, 0, 0).unwrap();
    assert_eq!((w.amount_a, w.amount_b), (3, 3));
}

#[test]
fn withdraw_everything_empties_pool() {
    let mut pool = pool_with(30, 1_000);
    let w = remove_liquidity(&mut pool, reserves(7, 9), 1_000, 7, 9).unwrap();
    assert_eq!(w.reserves_after, reserves(0, 0));
    assert_eq!(pool.total_lp_supply, 0);
}

#[test]
fn withdraw_slippage_and_excess_shares() {
    let mut pool = pool_with(30, 1_000_000);
    let before = pool;
    assert_eq!(
        remove_liquidity(&mut pool, reserves(1_000_000, 2_000_000), 250_000, 250_001, 0),
        Err(ErrorCode::SlippageExceeded)
    );
    assert_eq!(
        remove_liquidity(&mut pool, reserves(1_000_000, 2_000_000), 250_000, 0, 500_001),
        Err(ErrorCode::SlippageExceeded)
    );
    assert_eq!(
        remove_liquidity(&mut pool, reserves(1_000_000, 2_000_000), 1_000_001, 0, 0),
        Err(ErrorCode::CalculationFailure)
    );
    assert_eq!(pool, before);
}

#[test]
fn zero_amounts_are_rejected_without_change() {
    let mut pool = pool_with(30, 1_000_000);
    let before = pool;
    let snapshot = reserves(1_000_000, 1_000_000);
    assert_eq!(add_liquidity(&mut pool, snapshot, 0, 5, 0), Err(ErrorCode::ZeroAmount));
    assert_eq!(pool, before);
    assert_eq!(swap(&pool, snapshot, pool.asset_a_id, 0, 0), Err(ErrorCode::ZeroAmount));
    assert_eq!(remove_liquidity(&mut pool, snapshot, 0, 0, 0), Err(ErrorCode::ZeroAmount));
    assert_eq!(pool, before);
    assert_eq!(snapshot, reserves(1_000_000, 1_000_000));
}

#[test]
fn swap_reference_trade() {
    let pool = pool_with(30, 1_000_000);
    assert_eq!(effective_amount_in(10_000, 30), 9_970);
    assert_eq!(get_amount_out(1_000_000, 1_000_000, 10_000, 30), Ok(9_871));
    let o = swap(&pool, reserves(1_000_000, 1_000_000), key(1), 10_000, 0).unwrap();
    assert_eq!(o.amount_out, 9_871);
    assert!(o.input_is_a);
    assert_eq!(o.reserves_after, reserves(1_010_000, 990_129));
}

#[test]
fn swap_from_side_b() {
    let pool = pool_with(30, 1_000_000);
    let o = swap(&pool, reserves(1_000_000, 1_000_000), key(2), 10_000, 0).unwrap();
    assert!(!o.input_is_a);
    assert_eq!(o.amount_out, 9_871);
    assert_eq!(o.reserves_after, reserves(990_129, 1_010_000));
}

#[test]
fn swap_product_grows() {
    let pool = pool_with(30, 1_000_000);
    let before = reserves(1_000_000, 3_000_000);
    let o = swap(&pool, before, key(1), 123_456, 0).unwrap();
    let old_product = wide_mul(before.reserve_a, before.reserve_b);
    let new_product = wide_mul(o.reserves_after.reserve_a, o.reserves_after.reserve_b);
    assert!(new_product > old_product);
}

#[test]
fn swap_with_fee_grows_product_strictly() {
    let pool = pool_with(30, 10);
    let o = swap(&pool, reserves(10, 10), key(1), 10, 0).unwrap();
    assert_eq!(effective_amount_in(10, 30), 9);
    assert_eq!(o.amount_out, 4);
    assert_eq!(o.reserves_after, reserves(20, 6));
    assert!(20 * 6 > 10 * 10);
    let o = swap(&pool, reserves(1, 6), key(1), 5, 0).unwrap();
    assert_eq!(o.amount_out, 4);
    assert_eq!(o.reserves_after, reserves(6, 2));
    assert!(6 * 2 > 1 * 6);
}

#[test]
fn swap_without_fee() {
    let pool = pool_with(0, 1_000);
    assert_eq!(effective_amount_in(1_000, 0), 1_000);
    let o = swap(&pool, reserves(1_000, 1_000), key(1), 1_000, 0).unwrap();
    assert_eq!(o.amount_out, 500);
    assert_eq!(o.reserves_after, reserves(2_000, 500));
}

#[test]
fn swap_slippage_guard() {
    let pool = pool_with(30, 1_000_000);
    let snapshot = reserves(1_000_000, 1_000_000);
    assert_eq!(swap(&pool, snapshot, key(1), 10_000, 9_872), Err(ErrorCode::SlippageExceeded));
    assert_eq!(swap(&pool, snapshot, key(1), 10_000, 9_871).unwrap().amount_out, 9_871);
}

#[test]
fn swap_unknown_asset() {
    let pool = pool_with(30, 1_000_000);
    assert_eq!(swap(&pool, reserves(1_000_000, 1_000_000), key(7), 10_000, 0), Err(ErrorCode::UnknownAsset));
}

#[test]
fn swap_output_that_would_drain_is_rejected() {
    assert_eq!(get_amount_out(0, 5, 10, 0), Err(ErrorCode::CalculationFailure));
    let pool = pool_with(0, 1);
    let o = swap(&pool, reserves(1, 1), key(1), 1_000, 0).unwrap();
    assert_eq!(o.amount_out, 0);
    assert_eq!(o.reserves_after, reserves(1_001, 1));
}

#[test]
fn small_swap_can_pay_nothing() {
    let pool = pool_with(30, 10);
    assert_eq!(get_amount_out(100, 10, 2, 30), Ok(0));
    let o = swap(&pool, reserves(100, 10), key(1), 2, 0).unwrap();
    assert_eq!(o.amount_out, 0);
    assert_eq!(o.reserves_after, reserves(102, 10));
    assert_eq!(get_amount_out(1_000, 3, 1_000, 30), Ok(1));
    let o = swap(&pool, reserves(1_000, 3), key(1), 1_000, 0).unwrap();
    assert_eq!(o.reserves_after, reserves(2_000, 2));
}

#[test]
fn swap_overflowing_reserve_is_rejected() {
    let pool = pool_with(0, 10);
    assert_eq!(swap(&pool, reserves(u64::MAX - 5, 10), key(1), 10, 0), Err(ErrorCode::CalculationFailure));
}

#[test]
fn swap_on_empty_pool_is_rejected() {
    let pool = pool_with(30, 0);
    assert_eq!(swap(&pool, reserves(0, 0), key(1), 10, 0), Err(ErrorCode::CalculationFailure));
    assert_eq!(get_amount_out(0, 0, 5, 0), Err(ErrorCode::CalculationFailure));
    assert_eq!(get_amount_out(5, 5, 0, 0), Err(ErrorCode::ZeroAmount));
}

#[test]
fn deposit_then_withdraw_returns_no_more() {
    let mut pool = pool_with(30, 10);
    let d = add_liquidity(&mut pool, reserves(3, 7), 1, 3, 0).unwrap();
    assert_eq!(d.lp_minted, 3);
    let w = remove_liquidity(&mut pool, d.reserves_after, d.lp_minted, 0, 0).unwrap();
    assert_eq!((w.amount_a, w.amount_b), (0, 2));
    assert!(w.amount_a <= 1 && w.amount_b <= 3);
    assert_eq!(pool.total_lp_supply, 10);
}

#[test]
fn first_deposit_then_withdraw_returns_all() {
    let mut pool = pool_with(30, 0);
    let d = add_liquidity(&mut pool, reserves(0, 0), 4_000, 9_000, 0).unwrap();
    let w = remove_liquidity(&mut pool, d.reserves_after, d.lp_minted, 0, 0).unwrap();
    assert_eq!((w.amount_a, w.amount_b), (4_000, 9_000));
    assert_eq!(pool.total_lp_supply, 0);
}

#[test]
fn handler_orders_transfers_and_mint() {
    let pool = pool_with(30, 0);
    let mut ctx = AddLiquidity {
        pool,
        reserves: reserves(0, 0),
        user: key(50),
        user_token_account_a: key(51),
        user_token_account_b: key(52),
        user_lp_token_account: key(53),
        pool_authority: key(60),
    };
    let orders = handler(&mut ctx, 4_000, 9_000, 0).unwrap();
    assert_eq!(orders.transfer_a, Transfer { from: key(51), to: key(10), authority: key(50), amount: 4_000 });
    assert_eq!(orders.transfer_b, Transfer { from: key(52), to: key(20), authority: key(50), amount: 9_000 });
    assert_eq!(orders.mint_lp, MintTo { mint: key(99), to: key(53), authority: key(60), amount: 6_000 });
    assert_eq!(ctx.pool.total_lp_supply, 6_000);
    assert_eq!(ctx.reserves, reserves(0, 0));
}

#[test]
fn handler_refusal_changes_nothing() {
    let pool = pool_with(30, 0);
    let mut ctx = AddLiquidity {
        pool,
        reserves: reserves(0, 0),
        user: key(50),
        user_token_account_a: key(51),
        user_token_account_b: key(52),
        user_lp_token_account: key(53),
        pool_authority: key(60),
    };
    let before = ctx;
    assert_eq!(handler(&mut ctx, 0, 9_000, 0), Err(ErrorCode::ZeroAmount));
    assert_eq!(ctx, before);
}

#[test]
fn checked_helpers() {
    assert_eq!(checked_add(u128::MAX, 1), Err(ErrorCode::CalculationFailure));
    assert_eq!(checked_add(2, 3), Ok(5));
    assert_eq!(checked_sub(2, 3), Err(ErrorCode::CalculationFailure));
    assert_eq!(checked_sub(3, 2), Ok(1));
    assert_eq!(checked_mul(u128::MAX, 2), Err(ErrorCode::CalculationFailure));
    assert_eq!(checked_mul(1 << 64, 1 << 63), Ok(1 << 127));
    assert_eq!(checked_div(7, 0), Err(ErrorCode::CalculationFailure));
    assert_eq!(checked_div(7, 2), Ok(3));
    assert_eq!(to_u64(u64::MAX as u128 + 1), Err(ErrorCode::CalculationFailure));
    assert_eq!(to_u64(u64::MAX as u128), Ok(u64::MAX));
    assert_eq!(wide_mul(u64::MAX, u64::MAX), (u64::MAX as u128) * (u64::MAX as u128));
}

#[test]
fn integer_square_root() {
    assert_eq!(floor_sqrt(0), 0);
    assert_eq!(floor_sqrt(1), 1);
    assert_eq!(floor_sqrt(15), 3);
    assert_eq!(floor_sqrt(16), 4);
    assert_eq!(floor_sqrt(1_000_000_000_000), 1_000_000);
    assert_eq!(floor_sqrt(u128::MAX), u64::MAX);
}

#[test]
fn error_messages() {
    assert_eq!(ErrorCode::ZeroAmount.message(), "Amount must be greater than zero.");
    assert_eq!(ErrorCode::SlippageExceeded.message(), "Slippage exceeded.");
}

#[test]
fn well_formed_pools() {
    let pool = pool_with(30, 0);
    assert!(pool.is_well_formed());
    let mut swapped = pool;
    swapped.asset_a_id = pool.asset_b_id;
    swapped.asset_b_id = pool.asset_a_id;
    assert!(!swapped.is_well_formed());
    let mut costly = pool;
    costly.fee_bps = FEE_DENOMINATOR;
    assert!(!costly.is_well_formed());
    assert!(pool.is_consistent_with(reserves(0, 0)));
    assert!(!pool.is_consistent_with(reserves(0, 1)));
}

#[test]
fn minted_shares_follow_reserve_a_fraction() {
    let mut pool = pool_with(30, 1_000);
    let d = add_liquidity(&mut pool, reserves(300, 700), 100, 234, 0).unwrap();
    assert_eq!(d.lp_minted, 1_000 * 100 / 300);
    assert_eq!(d.lp_minted, 333);
}

#[test]
fn deposit_keeps_share_value() {
    let mut pool = pool_with(30, 10);
    let d = add_liquidity(&mut pool, reserves(3, 7), 1, 3, 0).unwrap();
    let after = d.reserves_after;
    assert!(after.reserve_a * 10 >= 3 * pool.total_lp_supply);
    assert!(after.reserve_b * 10 >= 7 * pool.total_lp_supply);
}

#[test]
fn withdrawal_keeps_share_value() {
    let mut pool = pool_with(30, 3);
    let w = remove_liquidity(&mut pool, reserves(10, 11), 1, 0, 0).unwrap();
    assert_eq!(w.reserves_after, reserves(7, 8));
    assert!(w.reserves_after.reserve_a * 3 >= 10 * pool.total_lp_supply);
    assert!(w.reserves_after.reserve_b * 3 >= 11 * pool.total_lp_supply);
}

#[test]
fn registry_holds_one_pool_per_pair() {
    let mut registry = PoolRegistry::new();
    assert_eq!(registry.len(), 0);
    assert_eq!(registry.register(key(2), key(1), key(20), key(10), key(99), 30), Ok(0));
    assert_eq!(registry.register(key(1), key(2), key(11), key(21), key(98), 30), Err(ErrorCode::PoolAlreadyExists));
    assert_eq!(registry.register(key(2), key(1), key(11), key(21), key(98), 5), Err(ErrorCode::PoolAlreadyExists));
    assert_eq!(registry.register(key(1), key(3), key(12), key(31), key(97), 30), Ok(1));
    assert_eq!(registry.register(key(3), key(3), key(12), key(31), key(97), 30), Err(ErrorCode::InvalidRatio));
    assert_eq!(registry.len(), 2);
    assert_eq!(registry.find(&key(1), &key(2)), Some(0));
    assert_eq!(registry.find(&key(3), &key(1)), Some(1));
    assert_eq!(registry.find(&key(2), &key(3)), None);
    let pool = registry.get(0).unwrap();
    assert_eq!(pool.asset_a_id, key(1));
    assert_eq!(pool.vault_a_ref, key(10));
    assert_eq!(registry.get(2), None);
}
