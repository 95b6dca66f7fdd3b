//! Whole operations end to end: construction, deposits, withdrawals,
//! swaps, the lifecycle gates and the dispatcher.

use amm_pool::error::AppError;
use amm_pool::ledger::LedgerRequest;
use amm_pool::pool::{Identity, Pool, PoolState};
use amm_pool::processor::{
    AccountRef, AddLiquidityContext, EarnContext, InitializePoolContext, OpContext, OwnerContext,
    Processor, RemoveLiquidityContext, SwapContext,
};

fn id(n: u64) -> Identity {
    Identity { w0: n, w1: 7 * n + 1, w2: !n, w3: n ^ 0x5151 }
}

fn xor(a: Identity, b: Identity) -> Identity {
    Identity { w0: a.w0 ^ b.w0, w1: a.w1 ^ b.w1, w2: a.w2 ^ b.w2, w3: a.w3 ^ b.w3 }
}

const PROGRAM: u64 = 1;
const PAYER: u64 = 2;
const OWNER: u64 = 3;
const POOL: u64 = 4;
const LPT: u64 = 5;
const MINT_LPT: u64 = 6;
const VAULT: u64 = 7;
const TREASURER: u64 = 8;
const MINT_S: u64 = 10;
const MINT_A: u64 = 11;
const TREASURY_S: u64 = 20;
const TREASURY_A: u64 = 21;
const SRC_S: u64 = 30;
const SRC_A: u64 = 31;
const DST: u64 = 40;

fn signer(key: u64) -> AccountRef {
    AccountRef { key: id(key), owner_program: id(0), is_signer: true }
}

fn pool_account() -> AccountRef {
    AccountRef { key: id(POOL), owner_program: id(PROGRAM), is_signer: true }
}

fn init_context() -> InitializePoolContext {
    InitializePoolContext {
        program_id: id(PROGRAM),
        payer: signer(PAYER),
        owner: id(OWNER),
        pool_acc: pool_account(),
        lpt_acc: id(LPT),
        mint_lpt_acc: id(MINT_LPT),
        mint_lpt_initialized: false,
        vault_acc: signer(VAULT),
        proof_acc: xor(id(PROGRAM), xor(id(POOL), id(TREASURER))),
        treasurer: id(TREASURER),
        derived_treasurer: id(TREASURER),
        src_accs: vec![id(SRC_S), id(SRC_A)],
        mint_accs: vec![id(MINT_S), id(MINT_A)],
        treasury_accs: vec![id(TREASURY_S), id(TREASURY_A)],
        mint_decimals: 9,
    }
}

fn empty_pool() -> Pool {
    Pool {
        owner: id(0),
        state: PoolState::Uninitialized,
        mint_lpt: id(0),
        vault: id(0),
        mints: Vec::new(),
        treasurys: Vec::new(),
        reserves: Vec::new(),
    }
}

/// Constructs the two-token pool with seed deposits [1000, 2000].
fn constructed_pool() -> Pool {
    let (pool, _reqs) =
        Processor::initialize_pool(vec![1000, 2000], empty_pool(), &init_context()).unwrap();
    pool
}

fn owner_context() -> OwnerContext {
    OwnerContext { program_id: id(PROGRAM), owner: signer(OWNER), pool_acc: pool_account() }
}

fn add_context(supply: u64) -> AddLiquidityContext {
    AddLiquidityContext {
        program_id: id(PROGRAM),
        owner: signer(OWNER),
        pool_acc: pool_account(),
        lpt_acc: id(LPT),
        mint_lpt_acc: id(MINT_LPT),
        mint_lpt_supply: supply,
        src_accs: vec![id(SRC_S), id(SRC_A)],
        treasury_accs: vec![id(TREASURY_S), id(TREASURY_A)],
        treasurer: id(TREASURER),
        derived_treasurer: id(TREASURER),
    }
}

fn remove_context(supply: u64) -> RemoveLiquidityContext {
    RemoveLiquidityContext {
        program_id: id(PROGRAM),
        owner: signer(OWNER),
        pool_acc: pool_account(),
        lpt_acc: id(LPT),
        mint_lpt_acc: id(MINT_LPT),
        mint_lpt_supply: supply,
        dst_accs: vec![id(DST), id(DST + 1)],
        treasury_accs: vec![id(TREASURY_S), id(TREASURY_A)],
        treasurer: id(TREASURER),
        derived_treasurer: id(TREASURER),
    }
}

fn swap_context() -> SwapContext {
    SwapContext {
        program_id: id(PROGRAM),
        payer: signer(PAYER),
        pool_acc: pool_account(),
        vault_acc: id(VAULT),
        src_acc: id(SRC_S),
        treasury_bid_acc: id(TREASURY_S),
        dst_acc: id(DST),
        treasury_ask_acc: id(TREASURY_A),
        treasury_sen_acc: id(TREASURY_S),
        treasurer: id(TREASURER),
        derived_treasurer: id(TREASURER),
    }
}

#[test]
fn admin_operations_reject_an_unconstructed_record() {
    assert_eq!(
        Processor::freeze_pool(empty_pool(), &owner_context()),
        Err(AppError::MalformedRecord)
    );
    assert_eq!(
        Processor::thaw_pool(empty_pool(), &owner_context()),
        Err(AppError::MalformedRecord)
    );
}

#[test]
fn key_xor_combines_word_wise() {
    let a = Identity { w0: 0b1100, w1: 1, w2: 0, w3: u64::MAX };
    let b = Identity { w0: 0b1010, w1: 1, w2: 5, w3: 0 };
    assert_eq!(
        Processor::key_xor(&a, &b),
        Identity { w0: 0b0110, w1: 0, w2: 5, w3: u64::MAX }
    );
    // combining twice with the same key recovers the original
    assert_eq!(Processor::key_xor(&Processor::key_xor(&a, &b), &b), a);
}

#[test]
fn a_default_record_is_unconstructed() {
    let pool = Pool::default();
    assert_eq!(pool.state, PoolState::Uninitialized);
    assert!(pool.mints.is_empty());
    assert_eq!(PoolState::default(), PoolState::Uninitialized);
}

#[test]
fn construct_a_two_token_pool() {
    let (pool, reqs) =
        Processor::initialize_pool(vec![1000, 2000], empty_pool(), &init_context()).unwrap();
    assert_eq!(pool.state, PoolState::Initialized);
    assert_eq!(pool.owner, id(OWNER));
    assert_eq!(pool.mint_lpt, id(MINT_LPT));
    assert_eq!(pool.vault, id(VAULT));
    assert_eq!(pool.reserves, vec![1000, 2000]);
    assert_eq!(pool.mints, vec![id(MINT_S), id(MINT_A)]);
    // two actions per slot, then mint creation, share account, the
    // seed mint of 1000 shares, and the vault
    assert_eq!(reqs.len(), 2 * 2 + 4);
    assert_eq!(
        reqs[6],
        LedgerRequest::MintTo {
            amount: 1000,
            mint: id(MINT_LPT),
            dst: id(LPT),
            authority: id(TREASURER),
            signed: true,
        }
    );
}

#[test]
fn construct_twice_fails_with_constructor_once() {
    let pool = constructed_pool();
    assert_eq!(
        Processor::initialize_pool(vec![5, 5], pool, &init_context()),
        Err(AppError::ConstructorOnce)
    );
}

#[test]
fn construct_rejects_a_wrong_binding_proof() {
    let mut ctx = init_context();
    ctx.proof_acc = id(99);
    assert_eq!(
        Processor::initialize_pool(vec![1000, 2000], empty_pool(), &ctx),
        Err(AppError::InvalidMint)
    );
}

#[test]
fn construct_rejects_a_wrong_derived_treasurer() {
    let mut ctx = init_context();
    ctx.derived_treasurer = id(99);
    assert_eq!(
        Processor::initialize_pool(vec![1000, 2000], empty_pool(), &ctx),
        Err(AppError::InvalidMint)
    );
}

#[test]
fn construct_rejects_duplicate_mints() {
    let mut ctx = init_context();
    ctx.mint_accs = vec![id(MINT_S), id(MINT_S)];
    assert_eq!(
        Processor::initialize_pool(vec![1000, 2000], empty_pool(), &ctx),
        Err(AppError::InvalidMint)
    );
}

#[test]
fn construct_rejects_a_zero_deposit() {
    assert_eq!(
        Processor::initialize_pool(vec![1000, 0], empty_pool(), &init_context()),
        Err(AppError::ZeroValue)
    );
}

#[test]
fn construct_rejects_mismatched_account_counts() {
    assert_eq!(
        Processor::initialize_pool(vec![1000], empty_pool(), &init_context()),
        Err(AppError::ConstructorOnce)
    );
}

#[test]
fn construct_rejects_a_foreign_pool_account() {
    let mut ctx = init_context();
    ctx.pool_acc.owner_program = id(99);
    assert_eq!(
        Processor::initialize_pool(vec![1000, 2000], empty_pool(), &ctx),
        Err(AppError::IncorrectProgramId)
    );
}

#[test]
fn construct_requires_the_signatures() {
    let mut ctx = init_context();
    ctx.payer.is_signer = false;
    assert_eq!(
        Processor::initialize_pool(vec![1000, 2000], empty_pool(), &ctx),
        Err(AppError::InvalidOwner)
    );
}

#[test]
fn deposit_mints_proportional_shares() {
    let pool = constructed_pool();
    let (pool, reqs) = Processor::add_liquidity(&vec![100, 0], pool, &add_context(1000)).unwrap();
    assert_eq!(pool.reserves, vec![1100, 2000]);
    // one transfer for the deposited slot, then the share mint of 100
    assert_eq!(reqs.len(), 2);
    assert_eq!(
        reqs[1],
        LedgerRequest::MintTo {
            amount: 100,
            mint: id(MINT_LPT),
            dst: id(LPT),
            authority: id(TREASURER),
            signed: true,
        }
    );
}

#[test]
fn deposit_rejects_an_all_zero_delta() {
    let pool = constructed_pool();
    assert_eq!(
        Processor::add_liquidity(&vec![0, 0], pool, &add_context(1000)),
        Err(AppError::ZeroValue)
    );
}

#[test]
fn deposit_rejects_a_wrong_custody_account() {
    let pool = constructed_pool();
    let mut ctx = add_context(1000);
    ctx.treasury_accs = vec![id(TREASURY_S), id(99)];
    assert_eq!(
        Processor::add_liquidity(&vec![100, 0], pool, &ctx),
        Err(AppError::InvalidOwner)
    );
}

#[test]
fn withdraw_pays_every_slot_pro_rata() {
    let pool = constructed_pool();
    let (pool, _) = Processor::add_liquidity(&vec![100, 0], pool, &add_context(1000)).unwrap();
    // shares outstanding grew to 1100 with the minted 100
    let (pool, reqs) = Processor::remove_liquidity(110, pool, &remove_context(1100)).unwrap();
    assert_eq!(pool.reserves, vec![1100 - 110, 2000 - 200]);
    assert_eq!(pool.state, PoolState::Initialized);
    assert_eq!(reqs.len(), 3);
    assert_eq!(
        reqs[0],
        LedgerRequest::Burn {
            amount: 110,
            src: id(LPT),
            mint: id(MINT_LPT),
            authority: id(OWNER),
            signed: true,
        }
    );
    assert_eq!(
        reqs[1],
        LedgerRequest::Transfer {
            amount: 110,
            src: id(TREASURY_S),
            dst: id(DST),
            authority: id(TREASURER),
            signed: true,
        }
    );
    assert_eq!(
        reqs[2],
        LedgerRequest::Transfer {
            amount: 200,
            src: id(TREASURY_A),
            dst: id(DST + 1),
            authority: id(TREASURER),
            signed: true,
        }
    );
}

#[test]
fn withdrawing_everything_freezes_the_pool() {
    let pool = constructed_pool();
    let (pool, _) = Processor::remove_liquidity(1000, pool, &remove_context(1000)).unwrap();
    assert_eq!(pool.reserves, vec![0, 0]);
    assert_eq!(pool.state, PoolState::Frozen);
}

#[test]
fn withdraw_rejects_zero_shares() {
    let pool = constructed_pool();
    assert_eq!(
        Processor::remove_liquidity(0, pool, &remove_context(1000)),
        Err(AppError::ZeroValue)
    );
}

#[test]
fn withdraw_fails_with_underflow_past_the_supply() {
    let pool = constructed_pool();
    // burning more shares than exist quotes out more than the reserves hold
    assert_eq!(
        Processor::remove_liquidity(2000, pool, &remove_context(1000)),
        Err(AppError::Underflow)
    );
}

#[test]
fn withdraw_rejects_a_wrong_custody_account() {
    let pool = constructed_pool();
    let mut ctx = remove_context(1000);
    ctx.treasury_accs = vec![id(99), id(TREASURY_A)];
    assert_eq!(Processor::remove_liquidity(10, pool, &ctx), Err(AppError::UnmatchedPool));
}

#[test]
fn swap_moves_reserves_along_the_curve() {
    let pool = constructed_pool();
    let (pool, _) = Processor::add_liquidity(&vec![100, 0], pool, &add_context(1000)).unwrap();
    let (pool, _) = Processor::remove_liquidity(110, pool, &remove_context(1100)).unwrap();
    // reserves now [990, 1800]; push them to [1100, 1800] for the trade
    let (pool, _) = Processor::add_liquidity(&vec![110, 0], pool, &add_context(990)).unwrap();
    assert_eq!(pool.reserves, vec![1100, 1800]);
    let (pool, reqs) = Processor::swap(100, 0, pool, &swap_context()).unwrap();
    // new bid reserve 1200; ask side: ceil(1100 * 1800 / 1200) = 1650,
    // payout 150, fee and earning round to zero at this size
    assert_eq!(pool.reserves, vec![1200, 1650]);
    assert_eq!(reqs.len(), 2);
    assert_eq!(
        reqs[0],
        LedgerRequest::Transfer {
            amount: 100,
            src: id(SRC_S),
            dst: id(TREASURY_S),
            authority: id(PAYER),
            signed: false,
        }
    );
    assert_eq!(
        reqs[1],
        LedgerRequest::Transfer {
            amount: 150,
            src: id(TREASURY_A),
            dst: id(DST),
            authority: id(TREASURER),
            signed: true,
        }
    );
}

#[test]
fn swap_sweeps_the_earning_into_the_vault_in_base_terms() {
    // a pool big enough that the 0.05% earning is nonzero, trading the
    // non-base token in for the base token out and back
    let (pool, _) = Processor::initialize_pool(
        vec![1_000_000_000, 1_000_000_000],
        empty_pool(),
        &init_context(),
    )
    .unwrap();
    // bid the non-base token, ask the base token: earning is exempt
    let mut sctx = swap_context();
    sctx.treasury_bid_acc = id(TREASURY_A);
    sctx.treasury_ask_acc = id(TREASURY_S);
    let (pool, reqs) = Processor::swap(1_000_000, 0, pool, &sctx).unwrap();
    assert_eq!(pool.reserves, vec![999_003_497, 1_001_000_000]);
    assert_eq!(reqs.len(), 2);
    // now bid the base token, ask the non-base token: the 0.05% earning
    // is converted into base terms by a second pricing pass and swept
    let (pool, reqs) = Processor::swap(1_000_000, 0, pool, &swap_context()).unwrap();
    assert_eq!(reqs.len(), 3);
    match reqs[2] {
        LedgerRequest::Transfer { amount, src, dst, authority, signed } => {
            assert!(amount > 0);
            assert_eq!(src, id(TREASURY_S));
            assert_eq!(dst, id(VAULT));
            assert_eq!(authority, id(TREASURER));
            assert!(signed);
        }
        _ => panic!("expected the earning sweep"),
    }
    // the earning stayed in the pool's ask reserve and the sweep left
    // the base reserve
    assert!(pool.reserves[1] > 0);
}

#[test]
fn swap_with_identical_sides_is_a_no_op() {
    let pool = constructed_pool();
    let before = pool.clone();
    let mut ctx = swap_context();
    ctx.treasury_ask_acc = id(TREASURY_S);
    let (pool, reqs) = Processor::swap(100, 0, pool, &ctx).unwrap();
    assert_eq!(pool, before);
    assert!(reqs.is_empty());
}

#[test]
fn swap_below_the_limit_fails_with_exceed_limit() {
    let pool = constructed_pool();
    // the curve pays well under 1800 for a 100-token bid
    assert_eq!(
        Processor::swap(100, 1800, pool, &swap_context()),
        Err(AppError::ExceedLimit)
    );
}

#[test]
fn swap_rejects_an_unknown_custody_account() {
    let pool = constructed_pool();
    let mut ctx = swap_context();
    ctx.treasury_ask_acc = id(99);
    assert_eq!(Processor::swap(100, 0, pool, &ctx), Err(AppError::UnmatchedPool));
}

#[test]
fn swap_requires_the_base_custody_account() {
    let pool = constructed_pool();
    let mut ctx = swap_context();
    ctx.treasury_sen_acc = id(TREASURY_A);
    assert_eq!(Processor::swap(100, 0, pool, &ctx), Err(AppError::UnmatchedPool));
}

#[test]
fn swap_rejects_a_zero_amount() {
    let pool = constructed_pool();
    assert_eq!(Processor::swap(0, 0, pool, &swap_context()), Err(AppError::ZeroValue));
}

#[test]
fn frozen_pool_rejects_swap_and_withdraw() {
    let pool = constructed_pool();
    let pool = Processor::freeze_pool(pool, &owner_context()).unwrap();
    assert_eq!(pool.state, PoolState::Frozen);
    assert_eq!(
        Processor::swap(100, 0, pool.clone(), &swap_context()),
        Err(AppError::FrozenPool)
    );
    assert_eq!(
        Processor::remove_liquidity(10, pool.clone(), &remove_context(1000)),
        Err(AppError::FrozenPool)
    );
    // deposits stay open while frozen
    assert!(Processor::add_liquidity(&vec![100, 0], pool, &add_context(1000)).is_ok());
}

#[test]
fn thaw_reopens_the_pool() {
    let pool = constructed_pool();
    let pool = Processor::freeze_pool(pool, &owner_context()).unwrap();
    let pool = Processor::thaw_pool(pool, &owner_context()).unwrap();
    assert_eq!(pool.state, PoolState::Initialized);
    assert!(Processor::swap(100, 0, pool, &swap_context()).is_ok());
}

#[test]
fn only_the_owner_may_freeze_thaw_or_hand_over() {
    let pool = constructed_pool();
    let mut ctx = owner_context();
    ctx.owner = signer(99);
    assert_eq!(Processor::freeze_pool(pool.clone(), &ctx), Err(AppError::InvalidOwner));
    assert_eq!(Processor::thaw_pool(pool.clone(), &ctx), Err(AppError::InvalidOwner));
    assert_eq!(
        Processor::transfer_pool_ownership(pool, &ctx, &id(50)),
        Err(AppError::InvalidOwner)
    );
}

#[test]
fn ownership_transfer_changes_only_the_owner() {
    let pool = constructed_pool();
    let before = pool.clone();
    let pool = Processor::transfer_pool_ownership(pool, &owner_context(), &id(50)).unwrap();
    assert_eq!(pool.owner, id(50));
    assert_eq!(pool.state, before.state);
    assert_eq!(pool.reserves, before.reserves);
    // the old owner has lost control
    assert_eq!(
        Processor::freeze_pool(pool.clone(), &owner_context()),
        Err(AppError::InvalidOwner)
    );
    // the new owner has it
    let mut ctx = owner_context();
    ctx.owner = signer(50);
    assert!(Processor::freeze_pool(pool, &ctx).is_ok());
}

#[test]
fn earn_pays_fees_out_of_the_vault() {
    let pool = constructed_pool();
    let ctx = EarnContext {
        program_id: id(PROGRAM),
        owner: signer(OWNER),
        pool_acc: pool_account(),
        vault_acc: id(VAULT),
        dst_acc: id(DST),
        treasurer: id(TREASURER),
        derived_treasurer: id(TREASURER),
    };
    let reqs = Processor::earn(40, &pool, &ctx).unwrap();
    assert_eq!(
        reqs,
        vec![LedgerRequest::Transfer {
            amount: 40,
            src: id(VAULT),
            dst: id(DST),
            authority: id(TREASURER),
            signed: true,
        }]
    );
    assert_eq!(Processor::earn(0, &pool, &ctx), Err(AppError::ZeroValue));
    let mut wrong_vault = ctx.clone();
    wrong_vault.vault_acc = id(99);
    assert_eq!(Processor::earn(40, &pool, &wrong_vault), Err(AppError::InvalidOwner));
}

#[test]
fn deposit_at_zero_supply_reseeds_the_pool() {
    // all shares were burned but the record is still live: the next
    // deposit fixes a fresh exchange rate
    let pool = constructed_pool();
    let (pool, reqs) = Processor::add_liquidity(&vec![500, 700], pool, &add_context(0)).unwrap();
    assert_eq!(pool.reserves, vec![500, 700]);
    match reqs[reqs.len() - 1] {
        LedgerRequest::MintTo { amount, .. } => assert_eq!(amount, 500),
        _ => panic!("expected the share mint"),
    }
}

#[test]
fn swap_fails_with_overflow_past_the_reserve_range() {
    let mut pool = constructed_pool();
    pool.reserves = vec![u64::MAX - 10, 2000];
    assert_eq!(
        Processor::swap(100, 0, pool, &swap_context()),
        Err(AppError::Overflow)
    );
}

#[test]
fn process_runs_a_deposit() {
    let mut bytes = vec![1u8];
    bytes.extend_from_slice(&100u64.to_le_bytes());
    bytes.extend_from_slice(&0u64.to_le_bytes());
    let pool = constructed_pool();
    let (pool, reqs) =
        Processor::process(&bytes, pool, OpContext::AddLiquidity(add_context(1000))).unwrap();
    assert_eq!(pool.reserves, vec![1100, 2000]);
    assert_eq!(reqs.len(), 2);
}

#[test]
fn process_construct_with_no_deposits_fails() {
    // a bare construction tag carries no seed deposits at all
    assert_eq!(
        Processor::process(&[0], empty_pool(), OpContext::InitializePool(init_context())),
        Err(AppError::ConstructorOnce)
    );
}

#[test]
fn process_dispatches_by_tag() {
    let mut bytes = vec![3u8];
    bytes.extend_from_slice(&100u64.to_le_bytes());
    bytes.extend_from_slice(&0u64.to_le_bytes());
    let pool = constructed_pool();
    let (pool, reqs) =
        Processor::process(&bytes, pool, OpContext::Swap(swap_context())).unwrap();
    assert_eq!(pool.reserves, vec![1100, 1819]);
    assert_eq!(reqs.len(), 2);
}

#[test]
fn process_rejects_a_mismatched_context() {
    let bytes = vec![4u8];
    let pool = constructed_pool();
    assert_eq!(
        Processor::process(&bytes, pool, OpContext::Swap(swap_context())),
        Err(AppError::InvalidInstruction)
    );
}

#[test]
fn process_runs_the_admin_operations() {
    let pool = constructed_pool();
    let (pool, reqs) =
        Processor::process(&[4], pool, OpContext::FreezePool(owner_context())).unwrap();
    assert_eq!(pool.state, PoolState::Frozen);
    assert!(reqs.is_empty());
    let (pool, _) = Processor::process(&[5], pool, OpContext::ThawPool(owner_context())).unwrap();
    assert_eq!(pool.state, PoolState::Initialized);
    let (pool, _) = Processor::process(
        &[7],
        pool,
        OpContext::TransferPoolOwnership { ctx: owner_context(), new_owner: id(50) },
    )
    .unwrap();
    assert_eq!(pool.owner, id(50));
}
