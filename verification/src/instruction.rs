//! The inbound operation contract: a closed set of operation variants
//! decoded from a tag byte followed by little-endian 64-bit arguments.

use crate::error::AppError;
use crate::pool::{read_word, word_at};
use vstd::prelude::*;

verus! {

/// One decoded operation. Amount vectors are read greedily: every full
/// 8-byte group after the tag is one amount.
#[derive(Clone, Debug, PartialEq, Eq)]
pub enum AppInstruction {
    /// Construct the pool with one seed deposit per slot.
    InitializePool { reserves: Vec<u64> },
    /// Deposit into existing slots and mint shares.
    AddLiquidity { deltas: Vec<u64> },
    /// Burn `lpt` shares and withdraw pro rata.
    RemoveLiquidity { lpt: u64 },
    /// Exchange `amount` of one token for at least `limit` of another.
    Swap { amount: u64, limit: u64 },
    /// Halt swaps and withdrawals.
    FreezePool,
    /// Resume swaps and withdrawals.
    ThawPool,
    /// Pay `amount` of accumulated fees out of the vault.
    Earn { amount: u64 },
    /// Hand the pool to a new owner.
    TransferPoolOwnership,
}

impl AppInstruction {
    /// Decodes an operation from its wire form: one tag byte, then the
    /// arguments. Unknown tags and short buffers fail with
    /// `InvalidInstruction`.
    pub fn unpack(instruction: &[u8]) -> (r: Result<AppInstruction, AppError>)
        ensures
            ({
                let s = instruction@;
                &&& s.len() == 0 ==> r == Err::<AppInstruction, AppError>(
                    AppError::InvalidInstruction,
                )
                &&& s.len() > 0 && s[0] == 0 ==> (r matches Ok(x) && x matches
                    AppInstruction::InitializePool { reserves } && reserves@.len() == (s.len() - 1)
                    / 8 && (forall|i: int|
                    0 <= i < reserves@.len() ==> reserves@[i] == word_at(s, 1 + 8 * i)))
                &&& s.len() > 0 && s[0] == 1 ==> (r matches Ok(x) && x matches
                    AppInstruction::AddLiquidity { deltas } && deltas@.len() == (s.len() - 1) / 8
                    && (forall|i: int|
                    0 <= i < deltas@.len() ==> deltas@[i] == word_at(s, 1 + 8 * i)))
                &&& s.len() >= 9 && s[0] == 2 ==> r == Ok::<AppInstruction, AppError>(
                    AppInstruction::RemoveLiquidity { lpt: word_at(s, 1) },
                )
                &&& 0 < s.len() < 9 && s[0] == 2 ==> r == Err::<AppInstruction, AppError>(
                    AppError::InvalidInstruction,
                )
                &&& s.len() >= 17 && s[0] == 3 ==> r == Ok::<AppInstruction, AppError>(
                    AppInstruction::Swap { amount: word_at(s, 1), limit: word_at(s, 9) },
                )
                &&& 0 < s.len() < 17 && s[0] == 3 ==> r == Err::<AppInstruction, AppError>(
                    AppError::InvalidInstruction,
                )
                &&& s.len() > 0 && s[0] == 4 ==> r == Ok::<AppInstruction, AppError>(
                    AppInstruction::FreezePool,
                )
                &&& s.len() > 0 && s[0] == 5 ==> r == Ok::<AppInstruction, AppError>(
                    AppInstruction::ThawPool,
                )
                &&& s.len() >= 9 && s[0] == 6 ==> r == Ok::<AppInstruction, AppError>(
                    AppInstruction::Earn { amount: word_at(s, 1) },
                )
                &&& 0 < s.len() < 9 && s[0] == 6 ==> r == Err::<AppInstruction, AppError>(
                    AppError::InvalidInstruction,
                )
                &&& s.len() > 0 && s[0] == 7 ==> r == Ok::<AppInstruction, AppError>(
                    AppInstruction::TransferPoolOwnership,
                )
                &&& s.len() > 0 && s[0] > 7 ==> r == Err::<AppInstruction, AppError>(
                    AppError::InvalidInstruction,
                )
            }),
    {
        if instruction.len() == 0 {
            return Err(AppError::InvalidInstruction);
        }
        let tag = instruction[0];
        match tag {
            0 => {
                let reserves = read_amounts(instruction);
                Ok(AppInstruction::InitializePool { reserves })
            },
            1 => {
                let deltas = read_amounts(instruction);
                Ok(AppInstruction::AddLiquidity { deltas })
            },
            2 => {
                if instruction.len() < 9 {
                    return Err(AppError::InvalidInstruction);
                }
                let lpt = read_word(instruction, 1);
                Ok(AppInstruction::RemoveLiquidity { lpt })
            },
            3 => {
                if instruction.len() < 17 {
                    return Err(AppError::InvalidInstruction);
                }
                let amount = read_word(instruction, 1);
                let limit = read_word(instruction, 9);
                Ok(AppInstruction::Swap { amount, limit })
            },
            4 => Ok(AppInstruction::FreezePool),
            5 => Ok(AppInstruction::ThawPool),
            6 => {
                if instruction.len() < 9 {
                    return Err(AppError::InvalidInstruction);
                }
                let amount = read_word(instruction, 1);
                Ok(AppInstruction::Earn { amount })
            },
            7 => Ok(AppInstruction::TransferPoolOwnership),
            _ => Err(AppError::InvalidInstruction),
        }
    }
}

/// Reads every full 8-byte group after the tag byte as one amount.
fn read_amounts(instruction: &[u8]) -> (r: Vec<u64>)
    requires
        instruction@.len() > 0,
    ensures
        r@.len() == (instruction@.len() - 1) / 8,
        forall|i: int| 0 <= i < r@.len() ==> r@[i] == word_at(instruction@, 1 + 8 * i),
{
    let n = (instruction.len() - 1) / 8;
    proof {
        vstd::arithmetic::div_mod::lemma_remainder_lower(instruction@.len() - 1, 8);
    }
    let mut r: Vec<u64> = Vec::new();
    let mut i: usize = 0;
    while i < n
        invariant
            n == (instruction@.len() - 1) / 8,
            8 * n <= instruction@.len() - 1,
            instruction@.len() <= usize::MAX,
            i <= n,
            r@.len() == i,
            forall|k: int| 0 <= k < i ==> r@[k] == word_at(instruction@, 1 + 8 * k),
        decreases n - i,
    {
        r.push(read_word(instruction, 1 + 8 * i));
        i = i + 1;
    }
    r
}

} // verus!
