//! Arithmetic primitives, instruction decoding and the record byte
//! layout, checked on concrete values.

use amm_pool::error::AppError;
use amm_pool::instruction::AppInstruction;
use amm_pool::math::{add_checked, mul_div_floor, sub_checked, Roots};
use amm_pool::pool::{Identity, Pool, PoolState, MAX_TOKEN_COUNT, RECORD_LEN};

fn id(n: u64) -> Identity {
    Identity { w0: n, w1: n ^ 0xABCD, w2: !n, w3: n.wrapping_mul(31) }
}

fn sample_pool() -> Pool {
    Pool {
        owner: id(1),
        state: PoolState::Initialized,
        mint_lpt: id(2),
        vault: id(3),
        mints: vec![id(10), id(11)],
        treasurys: vec![id(20), id(21)],
        reserves: vec![1000, 2000],
    }
}

#[test]
fn mul_div_floor_rounds_down() {
    assert_eq!(mul_div_floor(7, 3, 2), Ok(10));
    assert_eq!(mul_div_floor(0, u64::MAX, 5), Ok(0));
    assert_eq!(mul_div_floor(u64::MAX, u64::MAX, u64::MAX), Ok(u64::MAX));
}

#[test]
fn mul_div_floor_rejects_zero_divisor_and_overflow() {
    assert_eq!(mul_div_floor(1, 1, 0), Err(AppError::Overflow));
    assert_eq!(mul_div_floor(u64::MAX, 2, 1), Err(AppError::Overflow));
}

#[test]
fn checked_add_and_sub_fail_instead_of_wrapping() {
    assert_eq!(add_checked(3, 4), Ok(7));
    assert_eq!(add_checked(u64::MAX, 1), Err(AppError::Overflow));
    assert_eq!(sub_checked(10, 4), Ok(6));
    assert_eq!(sub_checked(4, 10), Err(AppError::Underflow));
}

#[test]
fn sqrt_is_the_floor_root() {
    assert_eq!(0u128.sqrt(), 0);
    assert_eq!(1u128.sqrt(), 1);
    assert_eq!(2u128.sqrt(), 1);
    assert_eq!(3u128.sqrt(), 1);
    assert_eq!(4u128.sqrt(), 2);
    assert_eq!(15u128.sqrt(), 3);
    assert_eq!(16u128.sqrt(), 4);
    assert_eq!(999_999u128.sqrt(), 999);
    assert_eq!(1_000_000u128.sqrt(), 1000);
    assert_eq!(u128::MAX.sqrt(), 0xFFFF_FFFF_FFFF_FFFF);
}

#[test]
fn cbrt_is_the_floor_root() {
    assert_eq!(0u128.cbrt(), 0);
    assert_eq!(1u128.cbrt(), 1);
    assert_eq!(7u128.cbrt(), 1);
    assert_eq!(8u128.cbrt(), 2);
    assert_eq!(26u128.cbrt(), 2);
    assert_eq!(27u128.cbrt(), 3);
    assert_eq!(1_000_000_000u128.cbrt(), 1000);
    assert_eq!(u128::MAX.cbrt(), 6981463658331);
}

#[test]
fn unpack_reads_initialize_pool_amounts() {
    let mut bytes = vec![0u8];
    bytes.extend_from_slice(&1000u64.to_le_bytes());
    bytes.extend_from_slice(&2000u64.to_le_bytes());
    let ins = AppInstruction::unpack(&bytes).unwrap();
    assert_eq!(ins, AppInstruction::InitializePool { reserves: vec![1000, 2000] });
}

#[test]
fn unpack_ignores_a_trailing_partial_group() {
    let mut bytes = vec![1u8];
    bytes.extend_from_slice(&77u64.to_le_bytes());
    bytes.extend_from_slice(&[1, 2, 3]);
    let ins = AppInstruction::unpack(&bytes).unwrap();
    assert_eq!(ins, AppInstruction::AddLiquidity { deltas: vec![77] });
}

#[test]
fn unpack_reads_swap_amount_and_limit() {
    let mut bytes = vec![3u8];
    bytes.extend_from_slice(&100u64.to_le_bytes());
    bytes.extend_from_slice(&5u64.to_le_bytes());
    let ins = AppInstruction::unpack(&bytes).unwrap();
    assert_eq!(ins, AppInstruction::Swap { amount: 100, limit: 5 });
}

#[test]
fn unpack_reads_the_plain_tags() {
    let mut earn = vec![6u8];
    earn.extend_from_slice(&42u64.to_le_bytes());
    let mut remove = vec![2u8];
    remove.extend_from_slice(&9u64.to_le_bytes());
    assert_eq!(AppInstruction::unpack(&[4]).unwrap(), AppInstruction::FreezePool);
    assert_eq!(AppInstruction::unpack(&[5]).unwrap(), AppInstruction::ThawPool);
    assert_eq!(AppInstruction::unpack(&[7]).unwrap(), AppInstruction::TransferPoolOwnership);
    assert_eq!(AppInstruction::unpack(&earn).unwrap(), AppInstruction::Earn { amount: 42 });
    assert_eq!(AppInstruction::unpack(&remove).unwrap(), AppInstruction::RemoveLiquidity { lpt: 9 });
}

#[test]
fn unpack_rejects_bad_input() {
    assert_eq!(AppInstruction::unpack(&[]), Err(AppError::InvalidInstruction));
    assert_eq!(AppInstruction::unpack(&[8]), Err(AppError::InvalidInstruction));
    assert_eq!(AppInstruction::unpack(&[255]), Err(AppError::InvalidInstruction));
    assert_eq!(AppInstruction::unpack(&[2, 1, 2, 3]), Err(AppError::InvalidInstruction));
    let mut short_swap = vec![3u8];
    short_swap.extend_from_slice(&100u64.to_le_bytes());
    assert_eq!(AppInstruction::unpack(&short_swap), Err(AppError::InvalidInstruction));
    assert_eq!(AppInstruction::unpack(&[6, 1]), Err(AppError::InvalidInstruction));
}

#[test]
fn record_pack_then_unpack_returns_the_record() {
    let pool = sample_pool();
    let mut bytes: Vec<u8> = Vec::new();
    pool.pack_into_slice(&mut bytes);
    assert_eq!(bytes.len(), RECORD_LEN);
    let back = Pool::unpack_from_slice(&bytes).unwrap();
    assert_eq!(back, pool);
}

#[test]
fn record_layout_is_fixed() {
    let pool = sample_pool();
    let mut bytes: Vec<u8> = Vec::new();
    pool.pack_into_slice(&mut bytes);
    // owner word 0 sits first, little-endian
    assert_eq!(&bytes[0..8], &pool.owner.w0.to_le_bytes());
    // the lifecycle byte follows the owner
    assert_eq!(bytes[32], 1);
    // the slot count follows the header identities
    assert_eq!(bytes[97], 2);
    // slot 0's reserve sits after its mint and custody identities
    assert_eq!(&bytes[98 + 64..98 + 72], &1000u64.to_le_bytes());
    // the unused slot area is zero-filled
    assert!(bytes[98 + 2 * 72..].iter().all(|b| *b == 0));
}

#[test]
fn record_decode_rejects_a_short_buffer() {
    let bytes = vec![0u8; RECORD_LEN - 1];
    assert_eq!(Pool::unpack_from_slice(&bytes), Err(AppError::MalformedRecord));
}

#[test]
fn record_decode_rejects_unknown_lifecycle_and_count() {
    let mut bytes = vec![0u8; RECORD_LEN];
    bytes[32] = 3;
    assert_eq!(Pool::unpack_from_slice(&bytes), Err(AppError::MalformedRecord));
    let mut bytes = vec![0u8; RECORD_LEN];
    bytes[97] = MAX_TOKEN_COUNT as u8 + 1;
    assert_eq!(Pool::unpack_from_slice(&bytes), Err(AppError::MalformedRecord));
}

#[test]
fn record_decode_rejects_garbage_past_the_counted_slots() {
    let pool = sample_pool();
    let mut bytes: Vec<u8> = Vec::new();
    pool.pack_into_slice(&mut bytes);
    bytes[98 + 2 * 72 + 5] = 9;
    assert_eq!(Pool::unpack_from_slice(&bytes), Err(AppError::MalformedRecord));
}

#[test]
fn get_reserve_finds_each_slot_by_custody_account() {
    let pool = sample_pool();
    assert_eq!(pool.get_reserve(&id(20)), Some((0, 1000)));
    assert_eq!(pool.get_reserve(&id(21)), Some((1, 2000)));
    assert_eq!(pool.get_reserve(&id(99)), None);
}

#[test]
fn error_codes_and_messages_are_stable() {
    assert_eq!(AppError::InvalidInstruction.code(), 0);
    assert_eq!(AppError::InvalidOwner.code(), 1);
    assert_eq!(AppError::IncorrectProgramId.code(), 2);
    assert_eq!(AppError::ConstructorOnce.code(), 3);
    assert_eq!(AppError::ZeroValue.code(), 4);
    assert_eq!(AppError::InvalidMint.code(), 5);
    assert_eq!(AppError::ExceedLimit.code(), 11);
    assert_eq!(AppError::FrozenPool.message(), "Frozen pool");
    assert_eq!(AppError::ConstructorOnce.message(), "Already constructed");
}

#[test]
fn lifecycle_predicates_follow_the_state() {
    let mut pool = sample_pool();
    assert!(pool.is_initialized());
    assert!(!pool.is_frozen());
    pool.state = PoolState::Frozen;
    assert!(pool.is_frozen());
    pool.state = PoolState::Uninitialized;
    assert!(!pool.is_initialized());
}
