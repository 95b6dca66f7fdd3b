//! The closed set of failures an operation can end in.
//!
//! Every failure is terminal: the whole operation is rejected and the
//! pool record is left untouched. There is no recovery path inside the
//! engine; the caller must resubmit a corrected operation.

use vstd::prelude::*;

verus! {

/// Why an operation was rejected.
#[derive(Clone, Copy, Debug, PartialEq, Eq, Structural)]
pub enum AppError {
    /// The instruction bytes carry an unknown tag or are too short.
    InvalidInstruction,
    /// A pool record could not be decoded, or the record is not in a
    /// state the operation can use.
    MalformedRecord,
    /// An account is controlled by a different program than this engine.
    IncorrectProgramId,
    /// A required signature is missing, or the caller is not the
    /// recorded pool owner, or a supplied account does not match the
    /// recorded one.
    InvalidOwner,
    /// Construction was attempted on an already-initialized record, or
    /// the construction account vectors disagree in length or exceed
    /// the slot capacity.
    ConstructorOnce,
    /// Zero was supplied where a strictly positive amount is required.
    ZeroValue,
    /// The derived-address binding does not match, or duplicate token
    /// mints or custody accounts were supplied at construction.
    InvalidMint,
    /// A supplied custody account does not belong to the pool's slots.
    UnmatchedPool,
    /// A swap or withdrawal was attempted while the pool is frozen.
    FrozenPool,
    /// An arithmetic step would exceed the representable range.
    Overflow,
    /// A subtraction would drive a reserve below zero.
    Underflow,
    /// The swap output is below the caller's minimum.
    ExceedLimit,
}

/// The stable numeric code of each failure, as carried on the wire.
pub open spec fn error_code_spec(e: AppError) -> u32 {
    match e {
        AppError::InvalidInstruction => 0,
        AppError::InvalidOwner => 1,
        AppError::IncorrectProgramId => 2,
        AppError::ConstructorOnce => 3,
        AppError::ZeroValue => 4,
        AppError::InvalidMint => 5,
        AppError::MalformedRecord => 6,
        AppError::UnmatchedPool => 7,
        AppError::FrozenPool => 8,
        AppError::Overflow => 9,
        AppError::Underflow => 10,
        AppError::ExceedLimit => 11,
    }
}

/// What each failure says in words.
pub open spec fn message_spec(e: AppError) -> Seq<char> {
    match e {
        AppError::InvalidInstruction => "Invalid instruction"@,
        AppError::InvalidOwner => "Invalid owner"@,
        AppError::IncorrectProgramId => "Incorrect program id"@,
        AppError::ConstructorOnce => "Already constructed"@,
        AppError::ZeroValue => "Zero value"@,
        AppError::InvalidMint => "Invalid mint"@,
        AppError::MalformedRecord => "Malformed record"@,
        AppError::UnmatchedPool => "Unmatched pool"@,
        AppError::FrozenPool => "Frozen pool"@,
        AppError::Overflow => "Overflow"@,
        AppError::Underflow => "Underflow"@,
        AppError::ExceedLimit => "Exceed limit"@,
    }
}

impl AppError {
    /// The stable numeric code of this failure, for the host to carry
    /// in its own error type.
    pub fn code(&self) -> (r: u32)
        ensures
            r == error_code_spec(*self),
    {
        match *self {
            AppError::InvalidInstruction => 0,
            AppError::InvalidOwner => 1,
            AppError::IncorrectProgramId => 2,
            AppError::ConstructorOnce => 3,
            AppError::ZeroValue => 4,
            AppError::InvalidMint => 5,
            AppError::MalformedRecord => 6,
            AppError::UnmatchedPool => 7,
            AppError::FrozenPool => 8,
            AppError::Overflow => 9,
            AppError::Underflow => 10,
            AppError::ExceedLimit => 11,
        }
    }

    /// This failure in words, for the host's log.
    pub fn message(&self) -> (r: &'static str)
        ensures
            r@ == message_spec(*self),
    {
        match *self {
            AppError::InvalidInstruction => "Invalid instruction",
            AppError::InvalidOwner => "Invalid owner",
            AppError::IncorrectProgramId => "Incorrect program id",
            AppError::ConstructorOnce => "Already constructed",
            AppError::ZeroValue => "Zero value",
            AppError::InvalidMint => "Invalid mint",
            AppError::MalformedRecord => "Malformed record",
            AppError::UnmatchedPool => "Unmatched pool",
            AppError::FrozenPool => "Frozen pool",
            AppError::Overflow => "Overflow",
            AppError::Underflow => "Underflow",
            AppError::ExceedLimit => "Exceed limit",
        }
    }
}

} // verus!
