//! The interface to the external token ledger.
//!
//! The engine never moves tokens itself: each operation returns the
//! custody movements the host must have the ledger execute, as
//! `LedgerRequest` values. `XSPLT` builds those requests; `ISPLT`
//! serialises a request's call into the ledger's own instruction form
//! — a program id, account references and a byte payload.

use crate::error::AppError;
use crate::pool::{id_bytes, le_bytes, push_id, push_word, read_word, word_at, Identity};
use vstd::prelude::*;

verus! {

/// The fields this engine reads out of a token-ledger mint account:
/// the supply, the decimals and the initialization flag. The ledger
/// stores a mint as a fixed 82-byte record with the supply
/// little-endian at byte 36, the decimals at byte 44 and the flag at
/// byte 45.
pub fn read_mint_fields(data: &[u8]) -> (r: Result<(u64, u8, bool), AppError>)
    ensures
        data@.len() < 82 ==> r == Err::<(u64, u8, bool), AppError>(AppError::MalformedRecord),
        data@.len() >= 82 ==> r == Ok::<(u64, u8, bool), AppError>(
            (word_at(data@, 36), data@[44], data@[45] != 0),
        ),
{
    if data.len() < 82 {
        return Err(AppError::MalformedRecord);
    }
    let supply = read_word(data, 36);
    let decimals = data[44];
    let initialized = data[45] != 0;
    Ok((supply, decimals, initialized))
}

/// One account reference inside a built ledger instruction.
#[derive(Clone, Copy, Debug, PartialEq, Eq, Structural)]
pub struct AccountMeta {
    pub pubkey: Identity,
    pub is_signer: bool,
    pub is_writable: bool,
}

impl AccountMeta {
    /// A writable account reference.
    pub fn new(pubkey: Identity, is_signer: bool) -> (r: AccountMeta)
        ensures
            r == (AccountMeta { pubkey, is_signer, is_writable: true }),
    {
        AccountMeta { pubkey, is_signer, is_writable: true }
    }

    /// A read-only account reference.
    pub fn new_readonly(pubkey: Identity, is_signer: bool) -> (r: AccountMeta)
        ensures
            r == (AccountMeta { pubkey, is_signer, is_writable: false }),
    {
        AccountMeta { pubkey, is_signer, is_writable: false }
    }
}

/// A ledger instruction ready to send: the program to call, the
/// accounts it touches, and its payload bytes.
#[derive(Clone, Debug, PartialEq, Eq)]
pub struct Instruction {
    pub program_id: Identity,
    pub accounts: Vec<AccountMeta>,
    pub data: Vec<u8>,
}

/// One custody movement or account action the host must have the token
/// ledger execute. `signed` says whether the call must carry the
/// treasurer's derived signature.
#[derive(Clone, Copy, Debug, PartialEq, Eq, Structural)]
pub enum LedgerRequest {
    InitializeAccount { target: Identity, mint: Identity, owner: Identity, signed: bool },
    InitializeMint {
        decimals: u8,
        mint: Identity,
        owner: Identity,
        freeze_authority: Identity,
        signed: bool,
    },
    Transfer { amount: u64, src: Identity, dst: Identity, authority: Identity, signed: bool },
    MintTo { amount: u64, mint: Identity, dst: Identity, authority: Identity, signed: bool },
    Burn { amount: u64, src: Identity, mint: Identity, authority: Identity, signed: bool },
    CloseAccount { src: Identity, dst: Identity, owner: Identity, signed: bool },
}

/// Builds the requests the engine emits. Each function mirrors one
/// ledger call shape.
pub struct XSPLT {}

impl XSPLT {
    /// A mint-initialisation request.
    pub fn initialize_mint(
        decimals: u8,
        mint_acc: &Identity,
        owner: &Identity,
        freeze_authority: &Identity,
        signed: bool,
    ) -> (r: LedgerRequest)
        ensures
            r == (LedgerRequest::InitializeMint {
                decimals,
                mint: *mint_acc,
                owner: *owner,
                freeze_authority: *freeze_authority,
                signed,
            }),
    {
        LedgerRequest::InitializeMint {
            decimals,
            mint: *mint_acc,
            owner: *owner,
            freeze_authority: *freeze_authority,
            signed,
        }
    }

    /// An account-initialisation request.
    pub fn initialize_account(target_acc: &Identity, mint_acc: &Identity, owner: &Identity, signed: bool) -> (r:
        LedgerRequest)
        ensures
            r == (LedgerRequest::InitializeAccount {
                target: *target_acc,
                mint: *mint_acc,
                owner: *owner,
                signed,
            }),
    {
        LedgerRequest::InitializeAccount { target: *target_acc, mint: *mint_acc, owner: *owner, signed }
    }

    /// A transfer request.
    pub fn transfer(amount: u64, src_acc: &Identity, dst_acc: &Identity, owner: &Identity, signed: bool) -> (r:
        LedgerRequest)
        ensures
            r == (LedgerRequest::Transfer {
                amount,
                src: *src_acc,
                dst: *dst_acc,
                authority: *owner,
                signed,
            }),
    {
        LedgerRequest::Transfer { amount, src: *src_acc, dst: *dst_acc, authority: *owner, signed }
    }

    /// A share-mint request.
    pub fn mint_to(amount: u64, mint_acc: &Identity, dst_acc: &Identity, owner: &Identity, signed: bool) -> (r:
        LedgerRequest)
        ensures
            r == (LedgerRequest::MintTo {
                amount,
                mint: *mint_acc,
                dst: *dst_acc,
                authority: *owner,
                signed,
            }),
    {
        LedgerRequest::MintTo { amount, mint: *mint_acc, dst: *dst_acc, authority: *owner, signed }
    }

    /// A share-burn request.
    pub fn burn(amount: u64, src_acc: &Identity, mint_acc: &Identity, owner: &Identity, signed: bool) -> (r:
        LedgerRequest)
        ensures
            r == (LedgerRequest::Burn {
                amount,
                src: *src_acc,
                mint: *mint_acc,
                authority: *owner,
                signed,
            }),
    {
        LedgerRequest::Burn { amount, src: *src_acc, mint: *mint_acc, authority: *owner, signed }
    }

    /// An account-close request.
    pub fn close_account(src_acc: &Identity, dst_acc: &Identity, owner: &Identity, signed: bool) -> (r:
        LedgerRequest)
        ensures
            r == (LedgerRequest::CloseAccount { src: *src_acc, dst: *dst_acc, owner: *owner, signed }),
    {
        LedgerRequest::CloseAccount { src: *src_acc, dst: *dst_acc, owner: *owner, signed }
    }
}

/// Serialises ledger calls into the token ledger's instruction layout:
/// a one-byte method tag followed by the arguments, with the accounts
/// the method reads or writes in its fixed order.
pub struct ISPLT {}

impl ISPLT {
    /// The mint-initialisation instruction: tag 0, the decimals, the
    /// mint authority, then a set flag and the freeze authority.
    pub fn initialize_mint(
        decimals: u8,
        mint_acc: Identity,
        owner: Identity,
        freeze_authority: Identity,
        sysvar_rent_acc: Identity,
        program_id: Identity,
    ) -> (r: Result<Instruction, AppError>)
        ensures
            r matches Ok(ix) && ix.program_id == program_id && ix.data@ == seq![0u8, decimals]
                + id_bytes(owner) + seq![1u8] + id_bytes(freeze_authority) && ix.accounts@ == seq![
                AccountMeta { pubkey: mint_acc, is_signer: false, is_writable: true },
                AccountMeta { pubkey: sysvar_rent_acc, is_signer: false, is_writable: false },
            ],
    {
        let mut data: Vec<u8> = Vec::new();
        data.push(0);
        data.push(decimals);
        push_id(&mut data, &owner);
        data.push(1);
        push_id(&mut data, &freeze_authority);
        let mut accounts: Vec<AccountMeta> = Vec::new();
        accounts.push(AccountMeta::new(mint_acc, false));
        accounts.push(AccountMeta::new_readonly(sysvar_rent_acc, false));
        proof {
            assert(data@ =~= seq![0u8, decimals] + id_bytes(owner) + seq![1u8] + id_bytes(
                freeze_authority,
            ));
            assert(accounts@ =~= seq![
                AccountMeta { pubkey: mint_acc, is_signer: false, is_writable: true },
                AccountMeta { pubkey: sysvar_rent_acc, is_signer: false, is_writable: false },
            ]);
        }
        Ok(Instruction { program_id, accounts, data })
    }

    /// The account-initialisation instruction: tag 1.
    pub fn initialize_account(
        target_acc: Identity,
        mint_acc: Identity,
        owner: Identity,
        sysvar_rent_acc: Identity,
        program_id: Identity,
    ) -> (r: Result<Instruction, AppError>)
        ensures
            r matches Ok(ix) && ix.program_id == program_id && ix.data@ == seq![1u8]
                && ix.accounts@ == seq![
                AccountMeta { pubkey: target_acc, is_signer: false, is_writable: true },
                AccountMeta { pubkey: mint_acc, is_signer: false, is_writable: false },
                AccountMeta { pubkey: owner, is_signer: false, is_writable: false },
                AccountMeta { pubkey: sysvar_rent_acc, is_signer: false, is_writable: false },
            ],
    {
        let mut data: Vec<u8> = Vec::new();
        data.push(1);
        let mut accounts: Vec<AccountMeta> = Vec::new();
        accounts.push(AccountMeta::new(target_acc, false));
        accounts.push(AccountMeta::new_readonly(mint_acc, false));
        accounts.push(AccountMeta::new_readonly(owner, false));
        accounts.push(AccountMeta::new_readonly(sysvar_rent_acc, false));
        proof {
            assert(data@ =~= seq![1u8]);
            assert(accounts@ =~= seq![
                AccountMeta { pubkey: target_acc, is_signer: false, is_writable: true },
                AccountMeta { pubkey: mint_acc, is_signer: false, is_writable: false },
                AccountMeta { pubkey: owner, is_signer: false, is_writable: false },
                AccountMeta { pubkey: sysvar_rent_acc, is_signer: false, is_writable: false },
            ]);
        }
        Ok(Instruction { program_id, accounts, data })
    }

    /// The transfer instruction: tag 3, then the amount little-endian.
    pub fn transfer(
        amount: u64,
        src_acc: Identity,
        dst_acc: Identity,
        owner: Identity,
        program_id: Identity,
    ) -> (r: Result<Instruction, AppError>)
        ensures
            r matches Ok(ix) && ix.program_id == program_id && ix.data@ == seq![3u8] + le_bytes(
                amount,
            ) && ix.accounts@ == seq![
                AccountMeta { pubkey: src_acc, is_signer: false, is_writable: true },
                AccountMeta { pubkey: dst_acc, is_signer: false, is_writable: true },
                AccountMeta { pubkey: owner, is_signer: true, is_writable: false },
            ],
    {
        let mut data: Vec<u8> = Vec::new();
        data.push(3);
        push_word(&mut data, amount);
        let mut accounts: Vec<AccountMeta> = Vec::new();
        accounts.push(AccountMeta::new(src_acc, false));
        accounts.push(AccountMeta::new(dst_acc, false));
        accounts.push(AccountMeta::new_readonly(owner, true));
        proof {
            assert(data@ =~= seq![3u8] + le_bytes(amount));
            assert(accounts@ =~= seq![
                AccountMeta { pubkey: src_acc, is_signer: false, is_writable: true },
                AccountMeta { pubkey: dst_acc, is_signer: false, is_writable: true },
                AccountMeta { pubkey: owner, is_signer: true, is_writable: false },
            ]);
        }
        Ok(Instruction { program_id, accounts, data })
    }

    /// The mint instruction: tag 7, then the amount little-endian.
    pub fn mint_to(
        amount: u64,
        mint_acc: Identity,
        dst_acc: Identity,
        owner: Identity,
        program_id: Identity,
    ) -> (r: Result<Instruction, AppError>)
        ensures
            r matches Ok(ix) && ix.program_id == program_id && ix.data@ == seq![7u8] + le_bytes(
                amount,
            ) && ix.accounts@ == seq![
                AccountMeta { pubkey: mint_acc, is_signer: false, is_writable: true },
                AccountMeta { pubkey: dst_acc, is_signer: false, is_writable: true },
                AccountMeta { pubkey: owner, is_signer: true, is_writable: false },
            ],
    {
        let mut data: Vec<u8> = Vec::new();
        data.push(7);
        push_word(&mut data, amount);
        let mut accounts: Vec<AccountMeta> = Vec::new();
        accounts.push(AccountMeta::new(mint_acc, false));
        accounts.push(AccountMeta::new(dst_acc, false));
        accounts.push(AccountMeta::new_readonly(owner, true));
        proof {
            assert(data@ =~= seq![7u8] + le_bytes(amount));
            assert(accounts@ =~= seq![
                AccountMeta { pubkey: mint_acc, is_signer: false, is_writable: true },
                AccountMeta { pubkey: dst_acc, is_signer: false, is_writable: true },
                AccountMeta { pubkey: owner, is_signer: true, is_writable: false },
            ]);
        }
        Ok(Instruction { program_id, accounts, data })
    }

    /// The burn instruction: tag 8, then the amount little-endian.
    pub fn burn(
        amount: u64,
        src_acc: Identity,
        mint_acc: Identity,
        owner: Identity,
        program_id: Identity,
    ) -> (r: Result<Instruction, AppError>)
        ensures
            r matches Ok(ix) && ix.program_id == program_id && ix.data@ == seq![8u8] + le_bytes(
                amount,
            ) && ix.accounts@ == seq![
                AccountMeta { pubkey: src_acc, is_signer: false, is_writable: true },
                AccountMeta { pubkey: mint_acc, is_signer: false, is_writable: true },
                AccountMeta { pubkey: owner, is_signer: true, is_writable: false },
            ],
    {
        let mut data: Vec<u8> = Vec::new();
        data.push(8);
        push_word(&mut data, amount);
        let mut accounts: Vec<AccountMeta> = Vec::new();
        accounts.push(AccountMeta::new(src_acc, false));
        accounts.push(AccountMeta::new(mint_acc, false));
        accounts.push(AccountMeta::new_readonly(owner, true));
        proof {
            assert(data@ =~= seq![8u8] + le_bytes(amount));
            assert(accounts@ =~= seq![
                AccountMeta { pubkey: src_acc, is_signer: false, is_writable: true },
                AccountMeta { pubkey: mint_acc, is_signer: false, is_writable: true },
                AccountMeta { pubkey: owner, is_signer: true, is_writable: false },
            ]);
        }
        Ok(Instruction { program_id, accounts, data })
    }

    /// The account-close instruction: tag 9.
    pub fn close_account(
        src_acc: Identity,
        dst_acc: Identity,
        owner: Identity,
        program_id: Identity,
    ) -> (r: Result<Instruction, AppError>)
        ensures
            r matches Ok(ix) && ix.program_id == program_id && ix.data@ == seq![9u8]
                && ix.accounts@ == seq![
                AccountMeta { pubkey: src_acc, is_signer: false, is_writable: true },
                AccountMeta { pubkey: dst_acc, is_signer: false, is_writable: true },
                AccountMeta { pubkey: owner, is_signer: true, is_writable: false },
            ],
    {
        let mut data: Vec<u8> = Vec::new();
        data.push(9);
        let mut accounts: Vec<AccountMeta> = Vec::new();
        accounts.push(AccountMeta::new(src_acc, false));
        accounts.push(AccountMeta::new(dst_acc, false));
        accounts.push(AccountMeta::new_readonly(owner, true));
        proof {
            assert(data@ =~= seq![9u8]);
            assert(accounts@ =~= seq![
                AccountMeta { pubkey: src_acc, is_signer: false, is_writable: true },
                AccountMeta { pubkey: dst_acc, is_signer: false, is_writable: true },
                AccountMeta { pubkey: owner, is_signer: true, is_writable: false },
            ]);
        }
        Ok(Instruction { program_id, accounts, data })
    }
}

} // verus!
