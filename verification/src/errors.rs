//! Typed failures, one enum per component, and the explicit conversion to
//! the flat numeric code that a host boundary expects. The first failing
//! check aborts an operation; no operation is reported partially done.

use vstd::prelude::*;

verus! {

/// Failures of the account validator's pure pre-checks.
#[derive(Clone, Copy, PartialEq, Eq, Structural, Debug)]
pub enum ValidationError {
    /// A slot that must be signed carries no signer flag.
    MissingSigner,
    /// An account's stored mint field differs from the program's mint.
    WrongMint,
    /// Mutation is required but the account is read-only.
    AccountNotWritable,
    /// Fewer accounts were supplied than the operation requires.
    UnexpectedAccountCount,
}

/// Failures of the one-time initialization routine.
#[derive(Clone, Copy, PartialEq, Eq, Structural, Debug)]
pub enum InitError {
    /// The ledger already holds a valid mint record.
    AlreadyInitialized,
    /// The designated authority did not sign.
    MissingSigner,
}

/// Failures of the mint, burn and transfer operations.
#[derive(Clone, Copy, PartialEq, Eq, Structural, Debug)]
pub enum OpError {
    /// The acting account is not permitted to perform the operation.
    Unauthorized,
    /// A checked addition or subtraction would leave the 64-bit range.
    Overflow,
    /// The operation was asked to move zero tokens.
    ZeroAmount,
    /// A debit exceeds the source balance.
    InsufficientFunds,
}

/// Failures of instruction decoding.
#[derive(Clone, Copy, PartialEq, Eq, Structural, Debug)]
pub enum DecodeError {
    /// The buffer length does not match the decoded opcode's shape.
    InvalidInstructionData,
    /// The opcode byte matches no known operation.
    InvalidInstruction,
}

/// The single failure type the entry function reports to the host,
/// preserving the component-level cause.
#[derive(Clone, Copy, PartialEq, Eq, Structural, Debug)]
pub enum TokenError {
    Validation(ValidationError),
    Init(InitError),
    Op(OpError),
    Decode(DecodeError),
    /// A mint, burn or transfer was dispatched before initialization.
    NotInitialized,
}

/// The flat numeric code for each failure, for hosts that take one integer.
pub open spec fn spec_error_code(e: TokenError) -> u32 {
    match e {
        TokenError::Validation(ValidationError::MissingSigner) => 1u32,
        TokenError::Validation(ValidationError::WrongMint) => 2u32,
        TokenError::Validation(ValidationError::AccountNotWritable) => 3u32,
        TokenError::Validation(ValidationError::UnexpectedAccountCount) => 4u32,
        TokenError::Init(InitError::AlreadyInitialized) => 5u32,
        TokenError::Init(InitError::MissingSigner) => 6u32,
        TokenError::Op(OpError::Unauthorized) => 7u32,
        TokenError::Op(OpError::Overflow) => 8u32,
        TokenError::Op(OpError::ZeroAmount) => 9u32,
        TokenError::Op(OpError::InsufficientFunds) => 10u32,
        TokenError::Decode(DecodeError::InvalidInstructionData) => 11u32,
        TokenError::Decode(DecodeError::InvalidInstruction) => 12u32,
        TokenError::NotInitialized => 13u32,
    }
}

impl TokenError {
    /// The flat numeric code of this failure; distinct causes keep
    /// distinct codes.
    pub fn error_code(&self) -> (r: u32)
        ensures
            r == spec_error_code(*self),
    {
        match *self {
            TokenError::Validation(ValidationError::MissingSigner) => 1,
            TokenError::Validation(ValidationError::WrongMint) => 2,
            TokenError::Validation(ValidationError::AccountNotWritable) => 3,
            TokenError::Validation(ValidationError::UnexpectedAccountCount) => 4,
            TokenError::Init(InitError::AlreadyInitialized) => 5,
            TokenError::Init(InitError::MissingSigner) => 6,
            TokenError::Op(OpError::Unauthorized) => 7,
            TokenError::Op(OpError::Overflow) => 8,
            TokenError::Op(OpError::ZeroAmount) => 9,
            TokenError::Op(OpError::InsufficientFunds) => 10,
            TokenError::Decode(DecodeError::InvalidInstructionData) => 11,
            TokenError::Decode(DecodeError::InvalidInstruction) => 12,
            TokenError::NotInitialized => 13,
        }
    }
}

/// Distinct failures map to distinct flat codes: the host boundary loses
/// no cause.
pub proof fn lemma_error_codes_distinct(a: TokenError, b: TokenError)
    requires
        a != b,
    ensures
        spec_error_code(a) != spec_error_code(b),
{
}

} // verus!
