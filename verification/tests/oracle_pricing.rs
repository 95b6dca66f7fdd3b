//! The pricing engine on concrete values: the swap curve with its fee
//! split, the deposit rake, and the withdrawal quotes.

use amm_pool::error::AppError;
use amm_pool::oracle::Oracle;

#[test]
fn curve_is_the_ceiling_constant_product() {
    // 1100 * 1800 / 1200 = 1650 exactly
    assert_eq!(Oracle::curve(1200, 1100, 1800), Some(1650));
    // 10 * 10 / 11 rounds up to 10
    assert_eq!(Oracle::curve(11, 10, 10), Some(10));
    // 3 * 3 / 4 rounds up to 3 (not down to 2), keeping the product
    assert_eq!(Oracle::curve(4, 3, 3), Some(3));
}

#[test]
fn curve_rejects_an_empty_side() {
    assert_eq!(Oracle::curve(0, 5, 5), None);
    assert_eq!(Oracle::curve(10, 0, 5), None);
    assert_eq!(Oracle::curve(10, 5, 0), None);
    // a shrinking bid side would owe more than the ask reserve holds
    assert_eq!(Oracle::curve(5, 10, 7), None);
}

#[test]
fn curve_in_fee_splits_fee_and_earning() {
    // payout before fees: 1_000_000_000 - 999_001_000 = 999_000
    // fee 0.25% -> 2497, earning 0.05% -> 499
    assert_eq!(
        Oracle::curve_in_fee(1_001_000_000, 1_000_000_000, 1_000_000_000, false),
        Some((999_003_497, 996_004, 499))
    );
}

#[test]
fn curve_in_fee_earns_nothing_on_the_base_token() {
    // same trade, ask side is the base token: no earning is skimmed
    assert_eq!(
        Oracle::curve_in_fee(1_001_000_000, 1_000_000_000, 1_000_000_000, true),
        Some((999_003_497, 996_503, 0))
    );
}

#[test]
fn curve_in_fee_conserves_the_ask_reserve() {
    let (new_ask, paid, earning) =
        Oracle::curve_in_fee(1_001_000_000, 1_000_000_000, 1_000_000_000, false).unwrap();
    assert_eq!(new_ask as u128 + paid as u128 + earning as u128, 1_000_000_000);
    // and the reserve product never decreases
    assert!(1_001_000_000u128 * new_ask as u128 >= 1_000_000_000u128 * 1_000_000_000u128);
}

#[test]
fn small_trades_round_the_fee_to_zero() {
    // 1100 * 1800 / 1200 = 1650; payout 150 is too small to carry a fee
    assert_eq!(Oracle::curve_in_fee(1200, 1100, 1800, false), Some((1650, 150, 0)));
}

#[test]
fn rake_seeds_at_zero_supply() {
    let deltas = vec![1000u64, 2000];
    let reserves = vec![0u64, 0];
    let (minted, new_reserves) = Oracle::rake(&deltas, &reserves, 0).unwrap();
    assert_eq!(minted, 1000);
    assert_eq!(new_reserves, vec![1000, 2000]);
}

#[test]
fn rake_prices_a_single_slot_deposit_proportionally() {
    let deltas = vec![100u64, 0];
    let reserves = vec![1000u64, 2000];
    let (minted, new_reserves) = Oracle::rake(&deltas, &reserves, 1000).unwrap();
    assert_eq!(minted, 100);
    assert_eq!(new_reserves, vec![1100, 2000]);
}

#[test]
fn rake_takes_the_minimum_quote_across_deposited_slots() {
    // slot 0 quotes 100 shares, slot 1 only 50: the minimum wins
    let deltas = vec![100u64, 100];
    let reserves = vec![1000u64, 2000];
    let (minted, new_reserves) = Oracle::rake(&deltas, &reserves, 1000).unwrap();
    assert_eq!(minted, 50);
    assert_eq!(new_reserves, vec![1100, 2100]);
}

#[test]
fn rake_rejects_an_all_zero_deposit() {
    let deltas = vec![0u64, 0];
    let reserves = vec![1000u64, 2000];
    assert_eq!(Oracle::rake(&deltas, &reserves, 1000), Err(AppError::ZeroValue));
}

#[test]
fn rake_fails_on_arithmetic_overflow() {
    // growing a reserve past the 64-bit range
    let deltas = vec![2u64];
    let reserves = vec![u64::MAX - 1];
    assert_eq!(Oracle::rake(&deltas, &reserves, 7), Err(AppError::Overflow));
    // a quote past the 64-bit range
    let deltas = vec![u64::MAX];
    let reserves = vec![1u64];
    assert_eq!(Oracle::rake(&deltas, &reserves, u64::MAX), Err(AppError::Overflow));
    // a deposited slot with an empty reserve has no quote
    let deltas = vec![5u64];
    let reserves = vec![0u64];
    assert_eq!(Oracle::rake(&deltas, &reserves, 10), Err(AppError::Overflow));
}

#[test]
fn withdraw_quotes_are_pro_rata_floors() {
    let reserves = vec![1100u64, 2000];
    let quotes = Oracle::withdraw_quotes(110, &reserves, 1100).unwrap();
    assert_eq!(quotes, vec![110, 200]);
}

#[test]
fn withdraw_quotes_reject_a_zero_supply() {
    let reserves = vec![1000u64];
    assert_eq!(Oracle::withdraw_quotes(10, &reserves, 0), Err(AppError::Overflow));
}

#[test]
fn withdraw_quotes_reject_a_quote_past_the_range() {
    let reserves = vec![u64::MAX];
    assert_eq!(Oracle::withdraw_quotes(u64::MAX, &reserves, 1), Err(AppError::Overflow));
}

#[test]
fn deposit_then_withdraw_returns_no_more_than_deposited() {
    // deposit, then burn exactly the minted shares
    let deltas = vec![100u64, 100];
    let reserves = vec![1000u64, 2000];
    let supply = 1000u64;
    let (minted, new_reserves) = Oracle::rake(&deltas, &reserves, supply).unwrap();
    let quotes = Oracle::withdraw_quotes(minted, &new_reserves, supply + minted).unwrap();
    for i in 0..deltas.len() {
        assert!(quotes[i] <= deltas[i]);
    }
}

#[test]
fn round_trip_on_the_pricing_slot_loses_at_most_one_unit() {
    // 7 into a slot of 10 at supply 33 prices 23 shares; burning them
    // returns 6 of the 7 — exactly one unit lost to floor rounding
    let (minted, new_reserves) = Oracle::rake(&vec![7], &vec![10], 33).unwrap();
    assert_eq!(minted, 23);
    assert_eq!(new_reserves, vec![17]);
    let quotes = Oracle::withdraw_quotes(minted, &new_reserves, 33 + minted).unwrap();
    assert_eq!(quotes, vec![6]);
}

#[test]
fn proportional_deposit_round_trips_exactly() {
    // deltas are exactly one tenth of each reserve
    let deltas = vec![100u64, 200];
    let reserves = vec![1000u64, 2000];
    let supply = 1000u64;
    let (minted, new_reserves) = Oracle::rake(&deltas, &reserves, supply).unwrap();
    assert_eq!(minted, 100);
    let quotes = Oracle::withdraw_quotes(minted, &new_reserves, supply + minted).unwrap();
    assert_eq!(quotes, deltas);
}

#[test]
fn seed_deposit_round_trips_exactly() {
    let deltas = vec![1000u64, 2000];
    let reserves = vec![0u64, 0];
    let (minted, new_reserves) = Oracle::rake(&deltas, &reserves, 0).unwrap();
    let quotes = Oracle::withdraw_quotes(minted, &new_reserves, minted).unwrap();
    assert_eq!(quotes, deltas);
}
