//! The lifecycle controller: one pure function per operation, from the
//! decoded pool record and a validation context to the updated record
//! and the custody movements the token ledger must execute.
//!
//! Every operation validates first and computes second; it either
//! returns the full outcome or an error with nothing changed. The host
//! owns the accounts: it decodes the record, collects the context from
//! the accounts it was handed, performs the returned requests and
//! writes the record back, all atomically.

use crate::error::AppError;
use crate::instruction::AppInstruction;
use crate::ledger::{LedgerRequest, XSPLT};
use crate::oracle::{
    all_zero, curve_in_fee_spec, deposit_overflows, min_quote, rake_minted, rake_reserves,
    withdraw_quote, zero_reserve_deposit, Oracle,
};
use crate::pool::{
    find_treasury, lemma_find_treasury_props, word_at, Identity, Pool, PoolModel, PoolState,
    MAX_TOKEN_COUNT,
};
use vstd::prelude::*;

verus! {

/// One account as the host presents it: its address, the program that
/// controls it, and whether the caller signed for it.
#[derive(Clone, Copy, Debug, PartialEq, Eq, Structural)]
pub struct AccountRef {
    pub key: Identity,
    pub owner_program: Identity,
    pub is_signer: bool,
}

/// The word-wise exclusive-or of two identities: the reversible
/// combining function of the derived-address binding.
pub open spec fn xor_ids(a: Identity, b: Identity) -> Identity {
    Identity { w0: a.w0 ^ b.w0, w1: a.w1 ^ b.w1, w2: a.w2 ^ b.w2, w3: a.w3 ^ b.w3 }
}

/// The context of an owner-gated administrative operation: freeze,
/// thaw, ownership transfer.
#[derive(Clone, Copy, Debug, PartialEq, Eq, Structural)]
pub struct OwnerContext {
    /// This engine's own program identity.
    pub program_id: Identity,
    /// The caller claiming to be the pool owner.
    pub owner: AccountRef,
    /// The account holding the pool record.
    pub pool_acc: AccountRef,
}

/// The first failure of the owner-gated admission checks: the record
/// account must belong to this engine, the caller must have signed,
/// the record must be constructed, and the caller must be the recorded
/// owner.
pub open spec fn admin_gate_err(pool: PoolModel, ctx: OwnerContext) -> Option<AppError> {
    if ctx.pool_acc.owner_program != ctx.program_id {
        Some(AppError::IncorrectProgramId)
    } else if !ctx.owner.is_signer {
        Some(AppError::InvalidOwner)
    } else if pool.state is Uninitialized {
        Some(AppError::MalformedRecord)
    } else if pool.owner != ctx.owner.key {
        Some(AppError::InvalidOwner)
    } else {
        None
    }
}

/// The context of a fee payout from the vault.
#[derive(Clone, Copy, Debug, PartialEq, Eq, Structural)]
pub struct EarnContext {
    pub program_id: Identity,
    pub owner: AccountRef,
    pub pool_acc: AccountRef,
    /// The fee vault the payout leaves.
    pub vault_acc: Identity,
    /// Where the payout goes.
    pub dst_acc: Identity,
    /// The pool's custody-signing authority.
    pub treasurer: Identity,
    /// The address the host derived from the pool's key under this
    /// engine's identity; must equal `treasurer`.
    pub derived_treasurer: Identity,
}

/// The first failure of a fee payout's admission checks.
pub open spec fn earn_err(amount: u64, pool: PoolModel, ctx: EarnContext) -> Option<AppError> {
    let gate = admin_gate_err(
        pool,
        OwnerContext { program_id: ctx.program_id, owner: ctx.owner, pool_acc: ctx.pool_acc },
    );
    if gate is Some {
        gate
    } else if ctx.derived_treasurer != ctx.treasurer {
        Some(AppError::InvalidMint)
    } else if pool.vault != ctx.vault_acc {
        Some(AppError::InvalidOwner)
    } else if amount == 0 {
        Some(AppError::ZeroValue)
    } else {
        None
    }
}

/// The context of a deposit.
#[derive(Clone, Debug, PartialEq, Eq)]
pub struct AddLiquidityContext {
    pub program_id: Identity,
    pub owner: AccountRef,
    pub pool_acc: AccountRef,
    /// The depositor's share-token account, where minted shares land.
    pub lpt_acc: Identity,
    /// The shares mint; must be the pool's recorded one.
    pub mint_lpt_acc: Identity,
    /// Shares outstanding, as the ledger reports them.
    pub mint_lpt_supply: u64,
    /// The depositor's token accounts, one per slot.
    pub src_accs: Vec<Identity>,
    /// The pool custody accounts, one per slot.
    pub treasury_accs: Vec<Identity>,
    pub treasurer: Identity,
    pub derived_treasurer: Identity,
}

/// The first failure of a deposit's admission and pricing checks.
pub open spec fn add_liquidity_err(
    deltas: Seq<u64>,
    pool: PoolModel,
    ctx: AddLiquidityContext,
) -> Option<AppError> {
    let n = pool.token_count();
    if !(deltas.len() == n && ctx.src_accs@.len() == n && ctx.treasury_accs@.len() == n && n
        <= MAX_TOKEN_COUNT) {
        Some(AppError::ConstructorOnce)
    } else if ctx.pool_acc.owner_program != ctx.program_id {
        Some(AppError::IncorrectProgramId)
    } else if !ctx.owner.is_signer {
        Some(AppError::InvalidOwner)
    } else if ctx.derived_treasurer != ctx.treasurer {
        Some(AppError::InvalidMint)
    } else if pool.mint_lpt != ctx.mint_lpt_acc {
        Some(AppError::InvalidOwner)
    } else if exists|i: int| 0 <= i < n && pool.treasurys[i] != ctx.treasury_accs@[i] {
        Some(AppError::InvalidOwner)
    } else if all_zero(deltas) {
        Some(AppError::ZeroValue)
    } else if ctx.mint_lpt_supply > 0 && (zero_reserve_deposit(deltas, pool.reserves, n)
        || min_quote(deltas, pool.reserves, ctx.mint_lpt_supply, n).unwrap() > u64::MAX
        || deposit_overflows(deltas, pool.reserves, n)) {
        Some(AppError::Overflow)
    } else {
        None
    }
}

/// The custody movements of a deposit's first `n` slots: one transfer
/// into the pool per deposited slot.
pub open spec fn deposit_transfers(
    deltas: Seq<u64>,
    ctx: AddLiquidityContext,
    n: int,
) -> Seq<LedgerRequest>
    decreases n,
{
    if n <= 0 {
        Seq::empty()
    } else {
        let rest = deposit_transfers(deltas, ctx, n - 1);
        if deltas[n - 1] > 0 {
            rest + seq![
                LedgerRequest::Transfer {
                    amount: deltas[n - 1],
                    src: ctx.src_accs@[n - 1],
                    dst: ctx.treasury_accs@[n - 1],
                    authority: ctx.owner.key,
                    signed: false,
                },
            ]
        } else {
            rest
        }
    }
}

/// The context of a withdrawal.
#[derive(Clone, Debug, PartialEq, Eq)]
pub struct RemoveLiquidityContext {
    pub program_id: Identity,
    pub owner: AccountRef,
    pub pool_acc: AccountRef,
    /// The caller's share-token account the burned shares leave.
    pub lpt_acc: Identity,
    /// The shares mint; must be the pool's recorded one.
    pub mint_lpt_acc: Identity,
    /// Shares outstanding, as the ledger reports them.
    pub mint_lpt_supply: u64,
    /// Where each slot's payout goes, one per slot.
    pub dst_accs: Vec<Identity>,
    /// The pool custody accounts, one per slot.
    pub treasury_accs: Vec<Identity>,
    pub treasurer: Identity,
    pub derived_treasurer: Identity,
}

/// Some withdrawal quote does not fit in 64 bits.
pub open spec fn withdraw_overflows(lpt: u64, reserves: Seq<u64>, supply: u64) -> bool {
    exists|i: int| 0 <= i < reserves.len() && withdraw_quote(lpt, reserves[i], supply) > u64::MAX
}

/// Some withdrawal quote exceeds its own reserve.
pub open spec fn withdraw_underflows(lpt: u64, reserves: Seq<u64>, supply: u64) -> bool {
    exists|i: int|
        0 <= i < reserves.len() && withdraw_quote(lpt, reserves[i], supply) > reserves[i]
}

/// The reserves a successful withdrawal leaves.
pub open spec fn withdraw_reserves(lpt: u64, reserves: Seq<u64>, supply: u64) -> Seq<u64> {
    Seq::new(reserves.len(), |i: int| (reserves[i] - withdraw_quote(lpt, reserves[i], supply)) as u64)
}

/// The first failure of a withdrawal's admission and pricing checks.
pub open spec fn remove_liquidity_err(
    lpt: u64,
    pool: PoolModel,
    ctx: RemoveLiquidityContext,
) -> Option<AppError> {
    let n = pool.token_count();
    if ctx.pool_acc.owner_program != ctx.program_id {
        Some(AppError::IncorrectProgramId)
    } else if !ctx.owner.is_signer {
        Some(AppError::InvalidOwner)
    } else if ctx.derived_treasurer != ctx.treasurer {
        Some(AppError::InvalidMint)
    } else if !(ctx.dst_accs@.len() == n && ctx.treasury_accs@.len() == n) {
        Some(AppError::UnmatchedPool)
    } else if pool.mint_lpt != ctx.mint_lpt_acc {
        Some(AppError::UnmatchedPool)
    } else if exists|i: int| 0 <= i < n && pool.treasurys[i] != ctx.treasury_accs@[i] {
        Some(AppError::UnmatchedPool)
    } else if pool.state is Frozen {
        Some(AppError::FrozenPool)
    } else if lpt == 0 {
        Some(AppError::ZeroValue)
    } else if ctx.mint_lpt_supply == 0 {
        Some(AppError::Overflow)
    } else if withdraw_overflows(lpt, pool.reserves, ctx.mint_lpt_supply) {
        Some(AppError::Overflow)
    } else if withdraw_underflows(lpt, pool.reserves, ctx.mint_lpt_supply) {
        Some(AppError::Underflow)
    } else {
        None
    }
}

/// The custody movements of a withdrawal's first `n` slots: each
/// slot's quote paid out of the pool.
pub open spec fn withdraw_transfers(
    lpt: u64,
    reserves: Seq<u64>,
    supply: u64,
    ctx: RemoveLiquidityContext,
    n: int,
) -> Seq<LedgerRequest>
    decreases n,
{
    if n <= 0 {
        Seq::empty()
    } else {
        withdraw_transfers(lpt, reserves, supply, ctx, n - 1) + seq![
            LedgerRequest::Transfer {
                amount: withdraw_quote(lpt, reserves[n - 1], supply) as u64,
                src: ctx.treasury_accs@[n - 1],
                dst: ctx.dst_accs@[n - 1],
                authority: ctx.treasurer,
                signed: true,
            },
        ]
    }
}

/// The context of a swap.
#[derive(Clone, Copy, Debug, PartialEq, Eq, Structural)]
pub struct SwapContext {
    pub program_id: Identity,
    pub payer: AccountRef,
    pub pool_acc: AccountRef,
    /// The fee vault earnings are swept into.
    pub vault_acc: Identity,
    /// The payer's account the input leaves.
    pub src_acc: Identity,
    /// The custody account of the token flowing in.
    pub treasury_bid_acc: Identity,
    /// The payer's account the output lands in.
    pub dst_acc: Identity,
    /// The custody account of the token flowing out.
    pub treasury_ask_acc: Identity,
    /// The base token's custody account; must be slot 0.
    pub treasury_sen_acc: Identity,
    pub treasurer: Identity,
    pub derived_treasurer: Identity,
}

/// The whole swap as one function of the record and context: either
/// the error of the first failing check, or the new record and the
/// custody movements. A swap between one and the same custody account
/// succeeds without changing anything. When the fee is earned on a
/// non-base token, a second pricing pass through the same curve
/// converts it into base-token terms and sweeps it into the vault.
pub open spec fn swap_spec(amount: u64, limit: u64, pool: PoolModel, ctx: SwapContext) -> Result<
    (PoolModel, Seq<LedgerRequest>),
    AppError,
> {
    let n = pool.token_count();
    if ctx.pool_acc.owner_program != ctx.program_id {
        Err(AppError::IncorrectProgramId)
    } else if !ctx.payer.is_signer {
        Err(AppError::InvalidOwner)
    } else if ctx.derived_treasurer != ctx.treasurer {
        Err(AppError::InvalidMint)
    } else if find_treasury(pool.treasurys, ctx.treasury_bid_acc, n) is None {
        Err(AppError::UnmatchedPool)
    } else if find_treasury(pool.treasurys, ctx.treasury_ask_acc, n) is None {
        Err(AppError::UnmatchedPool)
    } else if find_treasury(pool.treasurys, ctx.treasury_sen_acc, n) != Some(0int) {
        Err(AppError::UnmatchedPool)
    } else if pool.state is Frozen {
        Err(AppError::FrozenPool)
    } else if amount == 0 {
        Err(AppError::ZeroValue)
    } else if ctx.treasury_bid_acc == ctx.treasury_ask_acc {
        Ok((pool, Seq::empty()))
    } else {
        let bid = find_treasury(pool.treasurys, ctx.treasury_bid_acc, n).unwrap();
        let ask = find_treasury(pool.treasurys, ctx.treasury_ask_acc, n).unwrap();
        let bid_reserve = pool.reserves[bid];
        let ask_reserve = pool.reserves[ask];
        if bid_reserve + amount > u64::MAX {
            Err(AppError::Overflow)
        } else {
            let new_bid = (bid_reserve + amount) as u64;
            match curve_in_fee_spec(new_bid, bid_reserve, ask_reserve, ask == 0) {
                None => Err(AppError::Overflow),
                Some((new_ask, paid, earning)) => {
                    if paid < limit {
                        Err(AppError::ExceedLimit)
                    } else {
                        let reserves1 = pool.reserves.update(bid, new_bid).update(ask, new_ask);
                        let reqs1 = seq![
                            LedgerRequest::Transfer {
                                amount,
                                src: ctx.src_acc,
                                dst: ctx.treasury_bid_acc,
                                authority: ctx.payer.key,
                                signed: false,
                            },
                            LedgerRequest::Transfer {
                                amount: paid,
                                src: ctx.treasury_ask_acc,
                                dst: ctx.dst_acc,
                                authority: ctx.treasurer,
                                signed: true,
                            },
                        ];
                        if earning == 0 {
                            Ok((PoolModel { reserves: reserves1, ..pool }, reqs1))
                        } else if new_ask + earning > u64::MAX {
                            Err(AppError::Overflow)
                        } else {
                            let new_ask_e = (new_ask + earning) as u64;
                            match curve_in_fee_spec(new_ask_e, new_ask, reserves1[0], true) {
                                None => Err(AppError::Overflow),
                                Some((new_sen, earning_in_sen, _z)) => {
                                    let reserves2 = reserves1.update(ask, new_ask_e).update(
                                        0,
                                        new_sen,
                                    );
                                    Ok(
                                        (
                                            PoolModel { reserves: reserves2, ..pool },
                                            reqs1 + seq![
                                                LedgerRequest::Transfer {
                                                    amount: earning_in_sen,
                                                    src: ctx.treasury_sen_acc,
                                                    dst: ctx.vault_acc,
                                                    authority: ctx.treasurer,
                                                    signed: true,
                                                },
                                            ],
                                        ),
                                    )
                                },
                            }
                        }
                    }
                },
            }
        }
    }
}

/// The context of pool construction.
#[derive(Clone, Debug, PartialEq, Eq)]
pub struct InitializePoolContext {
    pub program_id: Identity,
    /// The account funding construction; must sign.
    pub payer: AccountRef,
    /// The identity to record as pool owner.
    pub owner: Identity,
    /// The account holding the (still empty) pool record; must sign.
    pub pool_acc: AccountRef,
    /// The payer's share-token account the seed shares land in.
    pub lpt_acc: Identity,
    /// The shares mint to create.
    pub mint_lpt_acc: Identity,
    /// Whether the ledger reports that mint as already initialized.
    pub mint_lpt_initialized: bool,
    /// The fee vault to open; must sign.
    pub vault_acc: AccountRef,
    /// The caller-supplied binding proof: must equal the exclusive-or
    /// of the engine, pool and treasurer identities.
    pub proof_acc: Identity,
    pub treasurer: Identity,
    pub derived_treasurer: Identity,
    /// The payer's token accounts, one per slot.
    pub src_accs: Vec<Identity>,
    /// The token mints, one per slot; slot 0 is the base token.
    pub mint_accs: Vec<Identity>,
    /// The custody accounts to open, one per slot.
    pub treasury_accs: Vec<Identity>,
    /// The base-token mint's decimals, copied onto the shares mint.
    pub mint_decimals: u8,
}

/// The first failure of construction's admission checks.
pub open spec fn initialize_pool_err(
    reserves: Seq<u64>,
    pool: PoolModel,
    ctx: InitializePoolContext,
) -> Option<AppError> {
    let n = ctx.treasury_accs@.len() as int;
    if !(1 <= n <= MAX_TOKEN_COUNT && reserves.len() == n && ctx.src_accs@.len() == n
        && ctx.mint_accs@.len() == n) {
        Some(AppError::ConstructorOnce)
    } else if ctx.pool_acc.owner_program != ctx.program_id {
        Some(AppError::IncorrectProgramId)
    } else if !(ctx.payer.is_signer && ctx.pool_acc.is_signer && ctx.vault_acc.is_signer) {
        Some(AppError::InvalidOwner)
    } else if ctx.derived_treasurer != ctx.treasurer {
        Some(AppError::InvalidMint)
    } else if !(pool.state is Uninitialized) || ctx.mint_lpt_initialized {
        Some(AppError::ConstructorOnce)
    } else if ctx.proof_acc != xor_ids(ctx.program_id, xor_ids(ctx.pool_acc.key, ctx.treasurer)) {
        Some(AppError::InvalidMint)
    } else if exists|i: int, j: int| 0 <= i < j < n && ctx.mint_accs@[i] == ctx.mint_accs@[j] {
        Some(AppError::InvalidMint)
    } else if exists|i: int, j: int|
        0 <= i < j < n && ctx.treasury_accs@[i] == ctx.treasury_accs@[j] {
        Some(AppError::InvalidMint)
    } else if exists|i: int| 0 <= i < n && reserves[i] == 0 {
        Some(AppError::ZeroValue)
    } else {
        None
    }
}

/// The record a successful construction writes.
pub open spec fn initialized_pool(reserves: Seq<u64>, ctx: InitializePoolContext) -> PoolModel {
    PoolModel {
        owner: ctx.owner,
        state: PoolState::Initialized,
        mint_lpt: ctx.mint_lpt_acc,
        vault: ctx.vault_acc.key,
        mints: ctx.mint_accs@,
        treasurys: ctx.treasury_accs@,
        reserves: reserves,
    }
}

/// The custody actions of construction's first `n` slots: open each
/// custody account under the treasurer and move the seed deposit in.
pub open spec fn init_token_requests(
    reserves: Seq<u64>,
    ctx: InitializePoolContext,
    n: int,
) -> Seq<LedgerRequest>
    decreases n,
{
    if n <= 0 {
        Seq::empty()
    } else {
        init_token_requests(reserves, ctx, n - 1) + seq![
            LedgerRequest::InitializeAccount {
                target: ctx.treasury_accs@[n - 1],
                mint: ctx.mint_accs@[n - 1],
                owner: ctx.treasurer,
                signed: false,
            },
            LedgerRequest::Transfer {
                amount: reserves[n - 1],
                src: ctx.src_accs@[n - 1],
                dst: ctx.treasury_accs@[n - 1],
                authority: ctx.payer.key,
                signed: false,
            },
        ]
    }
}

/// The actions after the slot loop: create the shares mint under the
/// treasurer with the binding proof as freeze authority, open the
/// payer's share account, mint the seed shares, and open the vault for
/// the base token.
pub open spec fn init_tail_requests(
    reserves: Seq<u64>,
    ctx: InitializePoolContext,
) -> Seq<LedgerRequest> {
    seq![
        LedgerRequest::InitializeMint {
            decimals: ctx.mint_decimals,
            mint: ctx.mint_lpt_acc,
            owner: ctx.treasurer,
            freeze_authority: ctx.proof_acc,
            signed: true,
        },
        LedgerRequest::InitializeAccount {
            target: ctx.lpt_acc,
            mint: ctx.mint_lpt_acc,
            owner: ctx.payer.key,
            signed: false,
        },
        LedgerRequest::MintTo {
            amount: reserves[0],
            mint: ctx.mint_lpt_acc,
            dst: ctx.lpt_acc,
            authority: ctx.treasurer,
            signed: true,
        },
        LedgerRequest::InitializeAccount {
            target: ctx.vault_acc.key,
            mint: ctx.mint_accs@[0],
            owner: ctx.treasurer,
            signed: false,
        },
    ]
}

/// Whether some identity repeats in the vector.
fn has_duplicate(ids: &Vec<Identity>) -> (r: bool)
    ensures
        r <==> exists|i: int, j: int| 0 <= i < j < ids@.len() && ids@[i] == ids@[j],
{
    let n = ids.len();
    let mut i: usize = 0;
    while i < n
        invariant
            n == ids@.len(),
            i <= n,
            forall|a: int, b: int| 0 <= a < b < n && a < i ==> ids@[a] != ids@[b],
        decreases n - i,
    {
        let mut j: usize = i + 1;
        while j < n
            invariant
                n == ids@.len(),
                i < n,
                i < j <= n,
                forall|b: int| i < b < j ==> ids@[i as int] != ids@[b],
            decreases n - j,
        {
            if ids[i] == ids[j] {
                return true;
            }
            j = j + 1;
        }
        i = i + 1;
    }
    false
}

/// Whether some amount in the vector is zero.
fn has_zero(amounts: &Vec<u64>) -> (r: bool)
    ensures
        r <==> exists|i: int| 0 <= i < amounts@.len() && amounts@[i] == 0,
{
    let mut i: usize = 0;
    while i < amounts.len()
        invariant
            i <= amounts@.len(),
            forall|j: int| 0 <= j < i ==> amounts@[j] != 0,
        decreases amounts@.len() - i,
    {
        if amounts[i] == 0 {
            return true;
        }
        i = i + 1;
    }
    false
}

/// An element-for-element copy of a vector of identities.
fn copy_ids(v: &Vec<Identity>) -> (r: Vec<Identity>)
    ensures
        r@ == v@,
{
    let mut r: Vec<Identity> = Vec::new();
    let mut i: usize = 0;
    while i < v.len()
        invariant
            i <= v.len(),
            r@ == v@.take(i as int),
        decreases v.len() - i,
    {
        r.push(v[i]);
        proof {
            assert(r@ == v@.take(i + 1));
        }
        i = i + 1;
    }
    proof {
        assert(v@.take(v@.len() as int) == v@);
    }
    r
}

/// The accounts and host-derived facts for one operation, matching the
/// operation's variant.
#[derive(Clone, Debug, PartialEq, Eq)]
pub enum OpContext {
    InitializePool(InitializePoolContext),
    AddLiquidity(AddLiquidityContext),
    RemoveLiquidity(RemoveLiquidityContext),
    Swap(SwapContext),
    FreezePool(OwnerContext),
    ThawPool(OwnerContext),
    Earn(EarnContext),
    TransferPoolOwnership { ctx: OwnerContext, new_owner: Identity },
}

/// The amount vector an instruction's wire form carries after its tag:
/// every full 8-byte group, little-endian.
pub open spec fn amounts_of(s: Seq<u8>) -> Seq<u64> {
    Seq::new((((s.len() - 1) / 8) as nat), |i: int| word_at(s, 1 + 8 * i))
}

/// One whole dispatched operation as a function of the instruction
/// bytes, the record and the context: decode, validate, compute. A tag
/// that does not fit the supplied context fails with
/// `InvalidInstruction`, as an unknown tag does.
pub open spec fn process_spec(s: Seq<u8>, pool: PoolModel, ctx: OpContext) -> Result<
    (PoolModel, Seq<LedgerRequest>),
    AppError,
> {
    if s.len() == 0 {
        Err(AppError::InvalidInstruction)
    } else {
        let tag = s[0];
        match ctx {
            OpContext::InitializePool(c) => if tag != 0 {
                Err(AppError::InvalidInstruction)
            } else {
                match initialize_pool_err(amounts_of(s), pool, c) {
                    Some(e) => Err(e),
                    None => Ok(
                        (
                            initialized_pool(amounts_of(s), c),
                            init_token_requests(
                                amounts_of(s),
                                c,
                                c.treasury_accs@.len() as int,
                            ) + init_tail_requests(amounts_of(s), c),
                        ),
                    ),
                }
            },
            OpContext::AddLiquidity(c) => if tag != 1 {
                Err(AppError::InvalidInstruction)
            } else {
                match add_liquidity_err(amounts_of(s), pool, c) {
                    Some(e) => Err(e),
                    None => Ok(
                        (
                            PoolModel {
                                reserves: rake_reserves(
                                    amounts_of(s),
                                    pool.reserves,
                                    c.mint_lpt_supply,
                                ),
                                ..pool
                            },
                            deposit_transfers(amounts_of(s), c, pool.token_count()) + seq![
                                LedgerRequest::MintTo {
                                    amount: rake_minted(
                                        amounts_of(s),
                                        pool.reserves,
                                        c.mint_lpt_supply,
                                    ),
                                    mint: c.mint_lpt_acc,
                                    dst: c.lpt_acc,
                                    authority: c.treasurer,
                                    signed: true,
                                },
                            ],
                        ),
                    ),
                }
            },
            OpContext::RemoveLiquidity(c) => if tag != 2 {
                Err(AppError::InvalidInstruction)
            } else if s.len() < 9 {
                Err(AppError::InvalidInstruction)
            } else {
                let lpt = word_at(s, 1);
                match remove_liquidity_err(lpt, pool, c) {
                    Some(e) => Err(e),
                    None => Ok(
                        (
                            PoolModel {
                                state: if pool.token_count() > 0 && withdraw_reserves(
                                    lpt,
                                    pool.reserves,
                                    c.mint_lpt_supply,
                                )[0] == 0 {
                                    PoolState::Frozen
                                } else {
                                    pool.state
                                },
                                reserves: withdraw_reserves(lpt, pool.reserves, c.mint_lpt_supply),
                                ..pool
                            },
                            seq![
                                LedgerRequest::Burn {
                                    amount: lpt,
                                    src: c.lpt_acc,
                                    mint: c.mint_lpt_acc,
                                    authority: c.owner.key,
                                    signed: true,
                                },
                            ] + withdraw_transfers(
                                lpt,
                                pool.reserves,
                                c.mint_lpt_supply,
                                c,
                                pool.token_count(),
                            ),
                        ),
                    ),
                }
            },
            OpContext::Swap(c) => if tag != 3 {
                Err(AppError::InvalidInstruction)
            } else if s.len() < 17 {
                Err(AppError::InvalidInstruction)
            } else {
                swap_spec(word_at(s, 1), word_at(s, 9), pool, c)
            },
            OpContext::FreezePool(c) => if tag != 4 {
                Err(AppError::InvalidInstruction)
            } else {
                match admin_gate_err(pool, c) {
                    Some(e) => Err(e),
                    None => Ok(
                        (PoolModel { state: PoolState::Frozen, ..pool }, Seq::empty()),
                    ),
                }
            },
            OpContext::ThawPool(c) => if tag != 5 {
                Err(AppError::InvalidInstruction)
            } else {
                match admin_gate_err(pool, c) {
                    Some(e) => Err(e),
                    None => Ok(
                        (PoolModel { state: PoolState::Initialized, ..pool }, Seq::empty()),
                    ),
                }
            },
            OpContext::Earn(c) => if tag != 6 {
                Err(AppError::InvalidInstruction)
            } else if s.len() < 9 {
                Err(AppError::InvalidInstruction)
            } else {
                let amount = word_at(s, 1);
                match earn_err(amount, pool, c) {
                    Some(e) => Err(e),
                    None => Ok(
                        (
                            pool,
                            seq![
                                LedgerRequest::Transfer {
                                    amount,
                                    src: c.vault_acc,
                                    dst: c.dst_acc,
                                    authority: c.treasurer,
                                    signed: true,
                                },
                            ],
                        ),
                    ),
                }
            },
            OpContext::TransferPoolOwnership { ctx: c, new_owner } => if tag != 7 {
                Err(AppError::InvalidInstruction)
            } else {
                match admin_gate_err(pool, c) {
                    Some(e) => Err(e),
                    None => Ok((PoolModel { owner: new_owner, ..pool }, Seq::empty())),
                }
            },
        }
    }
}

/// Law (swap conservation, at the pool): in every successful real swap
/// the ask side accounts for every unit — what stays in the reserve,
/// what is paid out and what is earned sum to the old reserve — and
/// the bid-ask reserve product never decreases. When no earning is
/// swept the final record holds exactly the curve's outputs; when one
/// is, the second pass obeys the same two facts against the base
/// reserve, and the base reserve drops by exactly the swept amount.
pub proof fn lemma_swap_value(amount: u64, limit: u64, pool: PoolModel, ctx: SwapContext)
    requires
        pool.wf(),
        ctx.treasury_bid_acc != ctx.treasury_ask_acc,
        swap_spec(amount, limit, pool, ctx) is Ok,
    ensures
        ({
            let n = pool.token_count();
            let bid = find_treasury(pool.treasurys, ctx.treasury_bid_acc, n).unwrap();
            let ask = find_treasury(pool.treasurys, ctx.treasury_ask_acc, n).unwrap();
            let bid_r = pool.reserves[bid];
            let ask_r = pool.reserves[ask];
            let nb = (bid_r + amount) as u64;
            let (na, paid, earning) = curve_in_fee_spec(nb, bid_r, ask_r, ask == 0).unwrap();
            let p2 = swap_spec(amount, limit, pool, ctx).unwrap().0;
            &&& bid != ask
            &&& na + paid + earning == ask_r
            &&& nb * na >= bid_r * ask_r
            &&& (earning == 0 ==> p2.reserves[bid] == nb && p2.reserves[ask] == na
                && p2.reserves[bid] * p2.reserves[ask] >= bid_r * ask_r)
            &&& (earning > 0 ==> {
                let sen_mid = if bid == 0 {
                    nb
                } else {
                    pool.reserves[0]
                };
                let ne = (na + earning) as u64;
                let (new_sen, swept, _z) = curve_in_fee_spec(ne, na, sen_mid, true).unwrap();
                &&& p2.reserves[ask] == ne
                &&& p2.reserves[0] == new_sen
                &&& new_sen + swept == sen_mid
                &&& ne * new_sen >= na * sen_mid
            })
        }),
{
    let n = pool.token_count();
    lemma_find_treasury_props(pool.treasurys, ctx.treasury_bid_acc, n);
    lemma_find_treasury_props(pool.treasurys, ctx.treasury_ask_acc, n);
    lemma_find_treasury_props(pool.treasurys, ctx.treasury_sen_acc, n);
    let bid = find_treasury(pool.treasurys, ctx.treasury_bid_acc, n).unwrap();
    let ask = find_treasury(pool.treasurys, ctx.treasury_ask_acc, n).unwrap();
    let bid_r = pool.reserves[bid];
    let ask_r = pool.reserves[ask];
    let nb = (bid_r + amount) as u64;
    crate::oracle::lemma_swap_conservation(nb, bid_r, ask_r, ask == 0);
    let (na, paid, earning) = curve_in_fee_spec(nb, bid_r, ask_r, ask == 0).unwrap();
    if earning > 0 {
        let sen_mid = if bid == 0 {
            nb
        } else {
            pool.reserves[0]
        };
        let ne = (na + earning) as u64;
        crate::oracle::lemma_swap_conservation(ne, na, sen_mid, true);
    }
}

/// Law (freeze gating, swap): while the pool is frozen no swap
/// succeeds, and one whose accounts and authorization are in order
/// fails with exactly `FrozenPool`.
pub proof fn lemma_frozen_rejects_swap(amount: u64, limit: u64, pool: PoolModel, ctx: SwapContext)
    requires
        pool.state is Frozen,
    ensures
        swap_spec(amount, limit, pool, ctx) is Err,
        ({
            let n = pool.token_count();
            ctx.pool_acc.owner_program == ctx.program_id && ctx.payer.is_signer
                && ctx.derived_treasurer == ctx.treasurer && find_treasury(
                pool.treasurys,
                ctx.treasury_bid_acc,
                n,
            ) is Some && find_treasury(pool.treasurys, ctx.treasury_ask_acc, n) is Some
                && find_treasury(pool.treasurys, ctx.treasury_sen_acc, n) == Some(0int)
        }) ==> swap_spec(amount, limit, pool, ctx) == Err::<
            (PoolModel, Seq<LedgerRequest>),
            AppError,
        >(AppError::FrozenPool),
{
}

/// Law (freeze gating, withdraw): while the pool is frozen no
/// withdrawal succeeds, and one whose accounts and authorization are
/// in order fails with exactly `FrozenPool`.
pub proof fn lemma_frozen_rejects_withdraw(lpt: u64, pool: PoolModel, ctx: RemoveLiquidityContext)
    requires
        pool.state is Frozen,
    ensures
        remove_liquidity_err(lpt, pool, ctx) is Some,
        ({
            let n = pool.token_count();
            ctx.pool_acc.owner_program == ctx.program_id && ctx.owner.is_signer
                && ctx.derived_treasurer == ctx.treasurer && ctx.dst_accs@.len() == n
                && ctx.treasury_accs@.len() == n && pool.mint_lpt == ctx.mint_lpt_acc && (forall|
                i: int,
            |
                0 <= i < n ==> pool.treasurys[i] == ctx.treasury_accs@[i])
        }) ==> remove_liquidity_err(lpt, pool, ctx) == Some(AppError::FrozenPool),
{
}

/// Law (construction exactly once): once a record has left the
/// uninitialized state, construction never succeeds again, and an
/// attempt whose account shape, controller, signatures and address
/// binding are all in order fails with exactly `ConstructorOnce` —
/// whatever the deposits. A successful construction leaves the record
/// initialized, so a second construction on it always fails so.
pub proof fn lemma_construct_exactly_once(
    reserves: Seq<u64>,
    pool: PoolModel,
    ctx: InitializePoolContext,
)
    requires
        !(pool.state is Uninitialized),
    ensures
        initialize_pool_err(reserves, pool, ctx) is Some,
        ({
            let n = ctx.treasury_accs@.len() as int;
            1 <= n <= MAX_TOKEN_COUNT && reserves.len() == n && ctx.src_accs@.len() == n
                && ctx.mint_accs@.len() == n && ctx.pool_acc.owner_program == ctx.program_id
                && ctx.payer.is_signer && ctx.pool_acc.is_signer && ctx.vault_acc.is_signer
                && ctx.derived_treasurer == ctx.treasurer
        }) ==> initialize_pool_err(reserves, pool, ctx) == Some(AppError::ConstructorOnce),
{
}

/// The lifecycle controller. Stateless: every operation takes the
/// record and returns the new one.
pub struct Processor {}

impl Processor {
    /// Routes one inbound operation: decodes the instruction bytes,
    /// dispatches to the handler the context fits, and returns the
    /// updated record and the custody movements to execute. On any
    /// error the record is returned nowhere and nothing is to be
    /// executed: the operation is rejected whole.
    pub fn process(instruction_data: &[u8], pool_data: Pool, ctx: OpContext) -> (r: Result<
        (Pool, Vec<LedgerRequest>),
        AppError,
    >)
        requires
            pool_data@.parallel(),
        ensures
            ({
                let s = process_spec(instruction_data@, pool_data@, ctx);
                match r {
                    Ok(o) => s == Ok::<(PoolModel, Seq<LedgerRequest>), AppError>((o.0@, o.1@)),
                    Err(e) => s == Err::<(PoolModel, Seq<LedgerRequest>), AppError>(e),
                }
            }),
    {
        let instruction = match AppInstruction::unpack(instruction_data) {
            Ok(x) => x,
            Err(e) => {
                return Err(e);
            },
        };
        match (instruction, ctx) {
            (AppInstruction::InitializePool { reserves }, OpContext::InitializePool(c)) => {
                proof {
                    assert(reserves@ =~= amounts_of(instruction_data@));
                }
                Self::initialize_pool(reserves, pool_data, &c)
            },
            (AppInstruction::AddLiquidity { deltas }, OpContext::AddLiquidity(c)) => {
                proof {
                    assert(deltas@ =~= amounts_of(instruction_data@));
                }
                Self::add_liquidity(&deltas, pool_data, &c)
            },
            (AppInstruction::RemoveLiquidity { lpt }, OpContext::RemoveLiquidity(c)) => {
                Self::remove_liquidity(lpt, pool_data, &c)
            },
            (AppInstruction::Swap { amount, limit }, OpContext::Swap(c)) => {
                Self::swap(amount, limit, pool_data, &c)
            },
            (AppInstruction::FreezePool, OpContext::FreezePool(c)) => {
                let p = Self::freeze_pool(pool_data, &c)?;
                Ok((p, Vec::new()))
            },
            (AppInstruction::ThawPool, OpContext::ThawPool(c)) => {
                let p = Self::thaw_pool(pool_data, &c)?;
                Ok((p, Vec::new()))
            },
            (AppInstruction::Earn { amount }, OpContext::Earn(c)) => {
                let reqs = Self::earn(amount, &pool_data, &c)?;
                Ok((pool_data, reqs))
            },
            (
                AppInstruction::TransferPoolOwnership,
                OpContext::TransferPoolOwnership { ctx: c, new_owner },
            ) => {
                let p = Self::transfer_pool_ownership(pool_data, &c, &new_owner)?;
                Ok((p, Vec::new()))
            },
            _ => Err(AppError::InvalidInstruction),
        }
    }

    /// Constructs the pool: validates the account set, the signatures
    /// and the derived-address binding, rejects a second construction,
    /// then seeds every slot with its deposit, mints the seed shares —
    /// one share per base-token unit, which fixes the initial exchange
    /// rate — and writes the record. The returned record is
    /// well-formed: its mints and custody accounts are pairwise
    /// distinct and every reserve is positive.
    pub fn initialize_pool(
        reserves: Vec<u64>,
        pool_data: Pool,
        ctx: &InitializePoolContext,
    ) -> (r: Result<(Pool, Vec<LedgerRequest>), AppError>)
        ensures
            initialize_pool_err(reserves@, pool_data@, *ctx) matches Some(e) ==> r == Err::<
                (Pool, Vec<LedgerRequest>),
                AppError,
            >(e),
            initialize_pool_err(reserves@, pool_data@, *ctx) is None ==> (r matches Ok(o) && o.0@
                == initialized_pool(reserves@, *ctx) && o.0@.wf() && (forall|i: int|
                0 <= i < o.0@.reserves.len() ==> o.0@.reserves[i] > 0) && o.1@
                == init_token_requests(reserves@, *ctx, ctx.treasury_accs@.len() as int)
                + init_tail_requests(reserves@, *ctx)),
    {
        let n = ctx.treasury_accs.len();
        if !(1 <= n && n <= MAX_TOKEN_COUNT && reserves.len() == n && ctx.src_accs.len() == n
            && ctx.mint_accs.len() == n) {
            return Err(AppError::ConstructorOnce);
        }
        Self::is_program(&ctx.program_id, &vec![ctx.pool_acc])?;
        Self::is_signer(&vec![ctx.payer, ctx.pool_acc, ctx.vault_acc])?;
        Self::safe_seed(&ctx.pool_acc, &ctx.treasurer, &ctx.derived_treasurer)?;
        if pool_data.is_initialized() || ctx.mint_lpt_initialized {
            return Err(AppError::ConstructorOnce);
        }
        let expected_proof = Self::key_xor(
            &ctx.program_id,
            &Self::key_xor(&ctx.pool_acc.key, &ctx.treasurer),
        );
        if ctx.proof_acc != expected_proof {
            return Err(AppError::InvalidMint);
        }
        if has_duplicate(&ctx.mint_accs) {
            return Err(AppError::InvalidMint);
        }
        if has_duplicate(&ctx.treasury_accs) {
            return Err(AppError::InvalidMint);
        }
        if has_zero(&reserves) {
            return Err(AppError::ZeroValue);
        }
        let mut reqs: Vec<LedgerRequest> = Vec::new();
        let mut i: usize = 0;
        while i < n
            invariant
                n == ctx.treasury_accs@.len(),
                n == ctx.mint_accs@.len(),
                n == ctx.src_accs@.len(),
                n == reserves@.len(),
                i <= n,
                reqs@ == init_token_requests(reserves@, *ctx, i as int),
            decreases n - i,
        {
            reqs.push(
                XSPLT::initialize_account(
                    &ctx.treasury_accs[i],
                    &ctx.mint_accs[i],
                    &ctx.treasurer,
                    false,
                ),
            );
            reqs.push(
                XSPLT::transfer(
                    reserves[i],
                    &ctx.src_accs[i],
                    &ctx.treasury_accs[i],
                    &ctx.payer.key,
                    false,
                ),
            );
            proof {
                assert(reqs@ =~= init_token_requests(reserves@, *ctx, i + 1));
            }
            i = i + 1;
        }
        reqs.push(
            XSPLT::initialize_mint(
                ctx.mint_decimals,
                &ctx.mint_lpt_acc,
                &ctx.treasurer,
                &ctx.proof_acc,
                true,
            ),
        );
        reqs.push(XSPLT::initialize_account(&ctx.lpt_acc, &ctx.mint_lpt_acc, &ctx.payer.key, false));
        reqs.push(XSPLT::mint_to(reserves[0], &ctx.mint_lpt_acc, &ctx.lpt_acc, &ctx.treasurer, true));
        reqs.push(
            XSPLT::initialize_account(&ctx.vault_acc.key, &ctx.mint_accs[0], &ctx.treasurer, false),
        );
        let mut pool_data = pool_data;
        pool_data.owner = ctx.owner;
        pool_data.state = PoolState::Initialized;
        pool_data.mint_lpt = ctx.mint_lpt_acc;
        pool_data.vault = ctx.vault_acc.key;
        pool_data.mints = copy_ids(&ctx.mint_accs);
        pool_data.treasurys = copy_ids(&ctx.treasury_accs);
        pool_data.reserves = reserves;
        proof {
            assert(pool_data@ =~= initialized_pool(reserves@, *ctx));
            assert(reqs@ =~= init_token_requests(reserves@, *ctx, n as int) + init_tail_requests(
                reserves@,
                *ctx,
            ));
        }
        Ok((pool_data, reqs))
    }
    /// Every listed account must be controlled by this engine.
    pub fn is_program(program_id: &Identity, accounts: &Vec<AccountRef>) -> (r: Result<
        (),
        AppError,
    >)
        ensures
            r is Ok <==> (forall|i: int|
                0 <= i < accounts@.len() ==> accounts@[i].owner_program == *program_id),
            r is Err ==> r == Err::<(), AppError>(AppError::IncorrectProgramId),
    {
        let mut i: usize = 0;
        while i < accounts.len()
            invariant
                i <= accounts@.len(),
                forall|j: int| 0 <= j < i ==> accounts@[j].owner_program == *program_id,
            decreases accounts@.len() - i,
        {
            if accounts[i].owner_program != *program_id {
                return Err(AppError::IncorrectProgramId);
            }
            i = i + 1;
        }
        Ok(())
    }

    /// Every listed account must have signed the operation.
    pub fn is_signer(accounts: &Vec<AccountRef>) -> (r: Result<(), AppError>)
        ensures
            r is Ok <==> (forall|i: int| 0 <= i < accounts@.len() ==> accounts@[i].is_signer),
            r is Err ==> r == Err::<(), AppError>(AppError::InvalidOwner),
    {
        let mut i: usize = 0;
        while i < accounts.len()
            invariant
                i <= accounts@.len(),
                forall|j: int| 0 <= j < i ==> accounts@[j].is_signer,
            decreases accounts@.len() - i,
        {
            if !accounts[i].is_signer {
                return Err(AppError::InvalidOwner);
            }
            i = i + 1;
        }
        Ok(())
    }

    /// The caller must be the recorded pool owner.
    pub fn is_pool_owner(owner: &AccountRef, pool_data: &Pool) -> (r: Result<(), AppError>)
        ensures
            r is Ok <==> pool_data@.owner == owner.key,
            r is Err ==> r == Err::<(), AppError>(AppError::InvalidOwner),
    {
        if pool_data.owner != owner.key {
            return Err(AppError::InvalidOwner);
        }
        Ok(())
    }

    /// Validates the treasurer binding: `derived` is the address the
    /// host derived from the seed account's key under this engine's
    /// identity, and it must equal the expected account's key. Returns
    /// the seed, the pool's own key. Fails with `InvalidMint`, the
    /// derived-address-binding error.
    pub fn safe_seed(seed_acc: &AccountRef, expected_acc: &Identity, derived: &Identity) -> (r:
        Result<Identity, AppError>)
        ensures
            *derived == *expected_acc ==> r == Ok::<Identity, AppError>(seed_acc.key),
            *derived != *expected_acc ==> r == Err::<Identity, AppError>(AppError::InvalidMint),
    {
        if *derived != *expected_acc {
            return Err(AppError::InvalidMint);
        }
        Ok(seed_acc.key)
    }

    /// The word-wise exclusive-or of two identities.
    pub fn key_xor(left_key: &Identity, right_key: &Identity) -> (r: Identity)
        ensures
            r == xor_ids(*left_key, *right_key),
    {
        Identity {
            w0: left_key.w0 ^ right_key.w0,
            w1: left_key.w1 ^ right_key.w1,
            w2: left_key.w2 ^ right_key.w2,
            w3: left_key.w3 ^ right_key.w3,
        }
    }

    /// Freezes the pool: only the recorded owner may, and afterwards
    /// swaps and withdrawals are rejected. Nothing else changes.
    pub fn freeze_pool(pool_data: Pool, ctx: &OwnerContext) -> (r: Result<Pool, AppError>)
        ensures
            admin_gate_err(pool_data@, *ctx) matches Some(e) ==> r == Err::<Pool, AppError>(e),
            admin_gate_err(pool_data@, *ctx) is None ==> (r matches Ok(p) && p@ == (PoolModel {
                state: PoolState::Frozen,
                ..pool_data@
            })),
    {
        Self::is_program(&ctx.program_id, &vec![ctx.pool_acc])?;
        Self::is_signer(&vec![ctx.owner])?;
        if pool_data.state == PoolState::Uninitialized {
            return Err(AppError::MalformedRecord);
        }
        Self::is_pool_owner(&ctx.owner, &pool_data)?;
        let mut pool_data = pool_data;
        pool_data.state = PoolState::Frozen;
        Ok(pool_data)
    }

    /// Thaws the pool: only the recorded owner may, and afterwards the
    /// pool trades again. Nothing else changes.
    pub fn thaw_pool(pool_data: Pool, ctx: &OwnerContext) -> (r: Result<Pool, AppError>)
        ensures
            admin_gate_err(pool_data@, *ctx) matches Some(e) ==> r == Err::<Pool, AppError>(e),
            admin_gate_err(pool_data@, *ctx) is None ==> (r matches Ok(p) && p@ == (PoolModel {
                state: PoolState::Initialized,
                ..pool_data@
            })),
    {
        Self::is_program(&ctx.program_id, &vec![ctx.pool_acc])?;
        Self::is_signer(&vec![ctx.owner])?;
        if pool_data.state == PoolState::Uninitialized {
            return Err(AppError::MalformedRecord);
        }
        Self::is_pool_owner(&ctx.owner, &pool_data)?;
        let mut pool_data = pool_data;
        pool_data.state = PoolState::Initialized;
        Ok(pool_data)
    }

    /// Hands the pool to a new owner: only the recorded owner may, and
    /// only the owner field changes.
    pub fn transfer_pool_ownership(pool_data: Pool, ctx: &OwnerContext, new_owner: &Identity) -> (r:
        Result<Pool, AppError>)
        ensures
            admin_gate_err(pool_data@, *ctx) matches Some(e) ==> r == Err::<Pool, AppError>(e),
            admin_gate_err(pool_data@, *ctx) is None ==> (r matches Ok(p) && p@ == (PoolModel {
                owner: *new_owner,
                ..pool_data@
            })),
    {
        Self::is_program(&ctx.program_id, &vec![ctx.pool_acc])?;
        Self::is_signer(&vec![ctx.owner])?;
        if pool_data.state == PoolState::Uninitialized {
            return Err(AppError::MalformedRecord);
        }
        Self::is_pool_owner(&ctx.owner, &pool_data)?;
        let mut pool_data = pool_data;
        pool_data.owner = *new_owner;
        Ok(pool_data)
    }

    /// Pays `amount` of accumulated fees out of the vault: only the
    /// recorded owner may. The record itself does not change.
    pub fn earn(amount: u64, pool_data: &Pool, ctx: &EarnContext) -> (r: Result<
        Vec<LedgerRequest>,
        AppError,
    >)
        ensures
            earn_err(amount, pool_data@, *ctx) matches Some(e) ==> r == Err::<
                Vec<LedgerRequest>,
                AppError,
            >(e),
            earn_err(amount, pool_data@, *ctx) is None ==> (r matches Ok(reqs) && reqs@ == seq![
                LedgerRequest::Transfer {
                    amount,
                    src: ctx.vault_acc,
                    dst: ctx.dst_acc,
                    authority: ctx.treasurer,
                    signed: true,
                },
            ]),
    {
        Self::is_program(&ctx.program_id, &vec![ctx.pool_acc])?;
        Self::is_signer(&vec![ctx.owner])?;
        if pool_data.state == PoolState::Uninitialized {
            return Err(AppError::MalformedRecord);
        }
        Self::is_pool_owner(&ctx.owner, pool_data)?;
        Self::safe_seed(&ctx.pool_acc, &ctx.treasurer, &ctx.derived_treasurer)?;
        if pool_data.vault != ctx.vault_acc {
            return Err(AppError::InvalidOwner);
        }
        if amount == 0 {
            return Err(AppError::ZeroValue);
        }
        let mut reqs: Vec<LedgerRequest> = Vec::new();
        reqs.push(XSPLT::transfer(amount, &ctx.vault_acc, &ctx.dst_acc, &ctx.treasurer, true));
        proof {
            assert(reqs@ =~= seq![
                LedgerRequest::Transfer {
                    amount,
                    src: ctx.vault_acc,
                    dst: ctx.dst_acc,
                    authority: ctx.treasurer,
                    signed: true,
                },
            ]);
        }
        Ok(reqs)
    }

    /// Deposits `deltas` into the pool's slots and mints the priced
    /// shares. The minimum proportional quote over the deposited slots
    /// is minted, so an imbalanced deposit cannot buy shares cheaply;
    /// at supply zero the deposit seeds the pool. A frozen pool still
    /// accepts deposits.
    pub fn add_liquidity(deltas: &Vec<u64>, pool_data: Pool, ctx: &AddLiquidityContext) -> (r:
        Result<(Pool, Vec<LedgerRequest>), AppError>)
        requires
            pool_data@.parallel(),
        ensures
            add_liquidity_err(deltas@, pool_data@, *ctx) matches Some(e) ==> r == Err::<
                (Pool, Vec<LedgerRequest>),
                AppError,
            >(e),
            add_liquidity_err(deltas@, pool_data@, *ctx) is None ==> (r matches Ok(o) && o.0@ == (
            PoolModel {
                reserves: rake_reserves(deltas@, pool_data@.reserves, ctx.mint_lpt_supply),
                ..pool_data@
            }) && o.1@ == deposit_transfers(deltas@, *ctx, pool_data@.token_count()) + seq![
                LedgerRequest::MintTo {
                    amount: rake_minted(deltas@, pool_data@.reserves, ctx.mint_lpt_supply),
                    mint: ctx.mint_lpt_acc,
                    dst: ctx.lpt_acc,
                    authority: ctx.treasurer,
                    signed: true,
                },
            ] && o.0@.parallel() && (pool_data@.wf() ==> o.0@.wf())),
    {
        let n = pool_data.mints.len();
        if !(deltas.len() == n && ctx.src_accs.len() == n && ctx.treasury_accs.len() == n && n
            <= MAX_TOKEN_COUNT) {
            return Err(AppError::ConstructorOnce);
        }
        Self::is_program(&ctx.program_id, &vec![ctx.pool_acc])?;
        Self::is_signer(&vec![ctx.owner])?;
        Self::safe_seed(&ctx.pool_acc, &ctx.treasurer, &ctx.derived_treasurer)?;
        if pool_data.mint_lpt != ctx.mint_lpt_acc {
            return Err(AppError::InvalidOwner);
        }
        let mut i: usize = 0;
        while i < n
            invariant
                pool_data@.parallel(),
                n == pool_data@.token_count(),
                deltas@.len() == n,
                ctx.src_accs@.len() == n,
                n == ctx.treasury_accs@.len(),
                ctx.pool_acc.owner_program == ctx.program_id,
                ctx.owner.is_signer,
                ctx.derived_treasurer == ctx.treasurer,
                pool_data@.mint_lpt == ctx.mint_lpt_acc,
                i <= n,
                forall|j: int| 0 <= j < i ==> pool_data@.treasurys[j] == ctx.treasury_accs@[j],
            decreases n - i,
        {
            if pool_data.treasurys[i] != ctx.treasury_accs[i] {
                return Err(AppError::InvalidOwner);
            }
            i = i + 1;
        }
        let (lpt, new_reserves) = match Oracle::rake(
            deltas,
            &pool_data.reserves,
            ctx.mint_lpt_supply,
        ) {
            Ok(o) => o,
            Err(e) => {
                return Err(e);
            },
        };
        proof {
            if ctx.mint_lpt_supply > 0 {
                assert(new_reserves@ =~= rake_reserves(
                    deltas@,
                    pool_data@.reserves,
                    ctx.mint_lpt_supply,
                ));
            }
        }
        let mut reqs: Vec<LedgerRequest> = Vec::new();
        let mut i: usize = 0;
        while i < n
            invariant
                n == deltas@.len(),
                n == ctx.src_accs@.len(),
                n == ctx.treasury_accs@.len(),
                i <= n,
                reqs@ == deposit_transfers(deltas@, *ctx, i as int),
            decreases n - i,
        {
            if deltas[i] > 0 {
                reqs.push(
                    XSPLT::transfer(
                        deltas[i],
                        &ctx.src_accs[i],
                        &ctx.treasury_accs[i],
                        &ctx.owner.key,
                        false,
                    ),
                );
                proof {
                    assert(reqs@ =~= deposit_transfers(deltas@, *ctx, i + 1));
                }
            }
            i = i + 1;
        }
        reqs.push(XSPLT::mint_to(lpt, &ctx.mint_lpt_acc, &ctx.lpt_acc, &ctx.treasurer, true));
        let mut pool_data = pool_data;
        pool_data.reserves = new_reserves;
        proof {
            assert(reqs@ =~= deposit_transfers(deltas@, *ctx, n as int) + seq![
                LedgerRequest::MintTo {
                    amount: lpt,
                    mint: ctx.mint_lpt_acc,
                    dst: ctx.lpt_acc,
                    authority: ctx.treasurer,
                    signed: true,
                },
            ]);
        }
        Ok((pool_data, reqs))
    }

    /// Burns `lpt` shares and pays every slot out pro rata. If the
    /// base-token reserve reaches exactly zero the pool freezes itself:
    /// an empty base reserve makes further pricing undefined.
    pub fn remove_liquidity(lpt: u64, pool_data: Pool, ctx: &RemoveLiquidityContext) -> (r: Result<
        (Pool, Vec<LedgerRequest>),
        AppError,
    >)
        requires
            pool_data@.parallel(),
        ensures
            remove_liquidity_err(lpt, pool_data@, *ctx) matches Some(e) ==> r == Err::<
                (Pool, Vec<LedgerRequest>),
                AppError,
            >(e),
            remove_liquidity_err(lpt, pool_data@, *ctx) is None ==> (r matches Ok(o) && o.0@ == (
            PoolModel {
                state: if pool_data@.token_count() > 0 && withdraw_reserves(
                    lpt,
                    pool_data@.reserves,
                    ctx.mint_lpt_supply,
                )[0] == 0 {
                    PoolState::Frozen
                } else {
                    pool_data@.state
                },
                reserves: withdraw_reserves(lpt, pool_data@.reserves, ctx.mint_lpt_supply),
                ..pool_data@
            }) && o.1@ == seq![
                LedgerRequest::Burn {
                    amount: lpt,
                    src: ctx.lpt_acc,
                    mint: ctx.mint_lpt_acc,
                    authority: ctx.owner.key,
                    signed: true,
                },
            ] + withdraw_transfers(
                lpt,
                pool_data@.reserves,
                ctx.mint_lpt_supply,
                *ctx,
                pool_data@.token_count(),
            ) && o.0@.parallel() && (pool_data@.wf() ==> o.0@.wf())),
    {
        let n = pool_data.treasurys.len();
        Self::is_program(&ctx.program_id, &vec![ctx.pool_acc])?;
        Self::is_signer(&vec![ctx.owner])?;
        Self::safe_seed(&ctx.pool_acc, &ctx.treasurer, &ctx.derived_treasurer)?;
        if !(ctx.dst_accs.len() == n && ctx.treasury_accs.len() == n) {
            return Err(AppError::UnmatchedPool);
        }
        if pool_data.mint_lpt != ctx.mint_lpt_acc {
            return Err(AppError::UnmatchedPool);
        }
        let mut i: usize = 0;
        while i < n
            invariant
                pool_data@.parallel(),
                n == pool_data@.token_count(),
                n == ctx.treasury_accs@.len(),
                n == ctx.dst_accs@.len(),
                ctx.pool_acc.owner_program == ctx.program_id,
                ctx.owner.is_signer,
                ctx.derived_treasurer == ctx.treasurer,
                pool_data@.mint_lpt == ctx.mint_lpt_acc,
                i <= n,
                forall|j: int| 0 <= j < i ==> pool_data@.treasurys[j] == ctx.treasury_accs@[j],
            decreases n - i,
        {
            if pool_data.treasurys[i] != ctx.treasury_accs[i] {
                return Err(AppError::UnmatchedPool);
            }
            i = i + 1;
        }
        if pool_data.is_frozen() {
            return Err(AppError::FrozenPool);
        }
        if lpt == 0 {
            return Err(AppError::ZeroValue);
        }
        let quotes = match Oracle::withdraw_quotes(lpt, &pool_data.reserves, ctx.mint_lpt_supply) {
            Ok(q) => q,
            Err(e) => {
                return Err(e);
            },
        };
        let mut new_reserves: Vec<u64> = Vec::new();
        let mut i: usize = 0;
        while i < n
            invariant
                pool_data@.parallel(),
                n == pool_data@.token_count(),
                ctx.mint_lpt_supply > 0,
                quotes@.len() == n,
                forall|j: int|
                    0 <= j < n ==> quotes@[j] == withdraw_quote(
                        lpt,
                        pool_data@.reserves[j],
                        ctx.mint_lpt_supply,
                    ),
                remove_liquidity_err(lpt, pool_data@, *ctx) is None || remove_liquidity_err(
                    lpt,
                    pool_data@,
                    *ctx,
                ) == Some(AppError::Underflow),
                i <= n,
                new_reserves@.len() == i,
                forall|j: int|
                    0 <= j < i ==> withdraw_quote(lpt, pool_data@.reserves[j], ctx.mint_lpt_supply)
                        <= pool_data@.reserves[j],
                forall|j: int|
                    0 <= j < i ==> new_reserves@[j] == withdraw_reserves(
                        lpt,
                        pool_data@.reserves,
                        ctx.mint_lpt_supply,
                    )[j],
            decreases n - i,
        {
            match pool_data.reserves[i].checked_sub(quotes[i]) {
                Some(v) => new_reserves.push(v),
                None => {
                    proof {
                        assert(withdraw_underflows(
                            lpt,
                            pool_data@.reserves,
                            ctx.mint_lpt_supply,
                        ));
                    }
                    return Err(AppError::Underflow);
                },
            }
            i = i + 1;
        }
        proof {
            assert(!withdraw_underflows(lpt, pool_data@.reserves, ctx.mint_lpt_supply));
        }
        let mut reqs: Vec<LedgerRequest> = Vec::new();
        reqs.push(XSPLT::burn(lpt, &ctx.lpt_acc, &ctx.mint_lpt_acc, &ctx.owner.key, true));
        let ghost burn_only = reqs@;
        let mut i: usize = 0;
        while i < n
            invariant
                pool_data@.parallel(),
                n == pool_data@.token_count(),
                n == ctx.treasury_accs@.len(),
                n == ctx.dst_accs@.len(),
                ctx.mint_lpt_supply > 0,
                quotes@.len() == n,
                forall|j: int|
                    0 <= j < n ==> quotes@[j] == withdraw_quote(
                        lpt,
                        pool_data@.reserves[j],
                        ctx.mint_lpt_supply,
                    ),
                i <= n,
                reqs@ == burn_only + withdraw_transfers(
                    lpt,
                    pool_data@.reserves,
                    ctx.mint_lpt_supply,
                    *ctx,
                    i as int,
                ),
            decreases n - i,
        {
            reqs.push(
                XSPLT::transfer(quotes[i], &ctx.treasury_accs[i], &ctx.dst_accs[i], &ctx.treasurer, true),
            );
            proof {
                assert(reqs@ =~= burn_only + withdraw_transfers(
                    lpt,
                    pool_data@.reserves,
                    ctx.mint_lpt_supply,
                    *ctx,
                    i + 1,
                ));
            }
            i = i + 1;
        }
        let ghost orig = pool_data@;
        let mut pool_data = pool_data;
        if new_reserves.len() > 0 && new_reserves[0] == 0 {
            pool_data.state = PoolState::Frozen;
        }
        pool_data.reserves = new_reserves;
        proof {
            assert(pool_data@.reserves =~= withdraw_reserves(
                lpt,
                orig.reserves,
                ctx.mint_lpt_supply,
            ));
        }
        Ok((pool_data, reqs))
    }

    /// Exchanges `amount` of the bid token for the ask token along the
    /// value-preserving curve, retaining the fee in the ask reserve and
    /// sweeping the earning into the vault in base-token terms. Fails
    /// with `ExceedLimit` when the payout is below `limit`.
    pub fn swap(amount: u64, limit: u64, pool_data: Pool, ctx: &SwapContext) -> (r: Result<
        (Pool, Vec<LedgerRequest>),
        AppError,
    >)
        requires
            pool_data@.parallel(),
        ensures
            ({
                let s = swap_spec(amount, limit, pool_data@, *ctx);
                match r {
                    Ok(o) => s == Ok::<(PoolModel, Seq<LedgerRequest>), AppError>((o.0@, o.1@)),
                    Err(e) => s == Err::<(PoolModel, Seq<LedgerRequest>), AppError>(e),
                }
            }),
            r matches Ok(o) ==> o.0@.parallel() && (pool_data@.wf() ==> o.0@.wf()),
    {
        let ghost orig = pool_data@;
        let ghost n = pool_data@.token_count();
        Self::is_program(&ctx.program_id, &vec![ctx.pool_acc])?;
        Self::is_signer(&vec![ctx.payer])?;
        Self::safe_seed(&ctx.pool_acc, &ctx.treasurer, &ctx.derived_treasurer)?;
        let (bid_code, bid_reserve) = match pool_data.get_reserve(&ctx.treasury_bid_acc) {
            None => {
                return Err(AppError::UnmatchedPool);
            },
            Some(x) => x,
        };
        let (ask_code, ask_reserve) = match pool_data.get_reserve(&ctx.treasury_ask_acc) {
            None => {
                return Err(AppError::UnmatchedPool);
            },
            Some(x) => x,
        };
        let (sen_code, _sen_reserve) = match pool_data.get_reserve(&ctx.treasury_sen_acc) {
            None => {
                return Err(AppError::UnmatchedPool);
            },
            Some(x) => x,
        };
        proof {
            lemma_find_treasury_props(orig.treasurys, ctx.treasury_bid_acc, n);
            lemma_find_treasury_props(orig.treasurys, ctx.treasury_ask_acc, n);
            lemma_find_treasury_props(orig.treasurys, ctx.treasury_sen_acc, n);
        }
        if sen_code != 0 {
            return Err(AppError::UnmatchedPool);
        }
        if pool_data.is_frozen() {
            return Err(AppError::FrozenPool);
        }
        if amount == 0 {
            return Err(AppError::ZeroValue);
        }
        if ctx.treasury_bid_acc == ctx.treasury_ask_acc {
            return Ok((pool_data, Vec::new()));
        }
        let ghost bid = find_treasury(orig.treasurys, ctx.treasury_bid_acc, n).unwrap();
        let ghost ask = find_treasury(orig.treasurys, ctx.treasury_ask_acc, n).unwrap();
        let new_bid = match bid_reserve.checked_add(amount) {
            None => {
                return Err(AppError::Overflow);
            },
            Some(v) => v,
        };
        let (new_ask, paid, earning) = match Oracle::curve_in_fee(
            new_bid,
            bid_reserve,
            ask_reserve,
            ask_code == 0,
        ) {
            None => {
                return Err(AppError::Overflow);
            },
            Some(t) => t,
        };
        if paid < limit {
            return Err(AppError::ExceedLimit);
        }
        let mut reqs: Vec<LedgerRequest> = Vec::new();
        reqs.push(
            XSPLT::transfer(amount, &ctx.src_acc, &ctx.treasury_bid_acc, &ctx.payer.key, false),
        );
        let mut pool_data = pool_data;
        pool_data.reserves.set(bid_code as usize, new_bid);
        pool_data.reserves.set(ask_code as usize, new_ask);
        reqs.push(XSPLT::transfer(paid, &ctx.treasury_ask_acc, &ctx.dst_acc, &ctx.treasurer, true));
        proof {
            assert(pool_data@.reserves =~= orig.reserves.update(bid, new_bid).update(
                ask,
                new_ask,
            ));
        }
        if earning != 0 {
            let new_ask_e = match new_ask.checked_add(earning) {
                None => {
                    return Err(AppError::Overflow);
                },
                Some(v) => v,
            };
            let sen_reserve_now = pool_data.reserves[0];
            let (new_sen, earning_in_sen, _unused) = match Oracle::curve_in_fee(
                new_ask_e,
                new_ask,
                sen_reserve_now,
                true,
            ) {
                None => {
                    return Err(AppError::Overflow);
                },
                Some(t) => t,
            };
            pool_data.reserves.set(ask_code as usize, new_ask_e);
            pool_data.reserves.set(0, new_sen);
            reqs.push(
                XSPLT::transfer(
                    earning_in_sen,
                    &ctx.treasury_sen_acc,
                    &ctx.vault_acc,
                    &ctx.treasurer,
                    true,
                ),
            );
            proof {
                let reserves1 = orig.reserves.update(bid, new_bid).update(ask, new_ask);
                let reqs1 = seq![
                    LedgerRequest::Transfer {
                        amount,
                        src: ctx.src_acc,
                        dst: ctx.treasury_bid_acc,
                        authority: ctx.payer.key,
                        signed: false,
                    },
                    LedgerRequest::Transfer {
                        amount: paid,
                        src: ctx.treasury_ask_acc,
                        dst: ctx.dst_acc,
                        authority: ctx.treasurer,
                        signed: true,
                    },
                ];
                assert(pool_data@.reserves =~= reserves1.update(ask, new_ask_e).update(
                    0,
                    new_sen,
                ));
                assert(pool_data@ =~= (PoolModel {
                    reserves: reserves1.update(ask, new_ask_e).update(0, new_sen),
                    ..orig
                }));
                assert(reqs@ =~= reqs1 + seq![
                    LedgerRequest::Transfer {
                        amount: earning_in_sen,
                        src: ctx.treasury_sen_acc,
                        dst: ctx.vault_acc,
                        authority: ctx.treasurer,
                        signed: true,
                    },
                ]);
            }
            return Ok((pool_data, reqs));
        }
        proof {
            assert(pool_data@ =~= (PoolModel {
                reserves: orig.reserves.update(bid, new_bid).update(ask, new_ask),
                ..orig
            }));
            assert(reqs@ =~= seq![
                LedgerRequest::Transfer {
                    amount,
                    src: ctx.src_acc,
                    dst: ctx.treasury_bid_acc,
                    authority: ctx.payer.key,
                    signed: false,
                },
                LedgerRequest::Transfer {
                    amount: paid,
                    src: ctx.treasury_ask_acc,
                    dst: ctx.dst_acc,
                    authority: ctx.treasurer,
                    signed: true,
                },
            ]);
        }
        Ok((pool_data, reqs))
    }
}

} // verus!

