//! The instruction dispatcher: the single entry function the host calls.
//! It decodes the instruction buffer, validates the supplied accounts
//! against the operation's slot requirements, and routes to the ledger.
//! All mutation happens only after a successful decode and validation
//! pass; any failure leaves the ledger exactly as it was.
//!
//! Account order per operation:
//! - init: `[mint ledger slot (writable), authority (signer)]`
//! - mint: `[mint ledger slot (writable), destination (writable, of this
//!   mint), authority (signer)]`
//! - burn: `[mint ledger slot (writable), source owner (signer, writable,
//!   of this mint)]`

use vstd::prelude::*;
use crate::records::Address;
use crate::accounts::AccountMeta;
use crate::accounts::SlotRequirement;
use crate::accounts::spec_validate;
use crate::accounts::validate;
use crate::codec::TokenInstruction;
use crate::codec::spec_decode_instruction;
use crate::codec::decode_instruction;
use crate::errors::TokenError;
use crate::token::SealanaToken;
use crate::token::spec_init_err;
use crate::token::spec_mint_err;
use crate::token::spec_burn_err;
use crate::token::mint_transition;
use crate::token::burn_transition;
use crate::token::same_config;

verus! {

/// The slot requirements of the init operation: the mint ledger slot must
/// be writable and the authority must sign.
pub open spec fn spec_init_reqs() -> Seq<SlotRequirement> {
    seq![
        SlotRequirement { must_sign: false, must_be_writable: true, expected_mint: None },
        SlotRequirement { must_sign: true, must_be_writable: false, expected_mint: None },
    ]
}

/// The slot requirements of the mint operation: ledger and destination
/// writable, the destination of this mint, and the authority signing.
pub open spec fn spec_mint_reqs(mint: Address) -> Seq<SlotRequirement> {
    seq![
        SlotRequirement { must_sign: false, must_be_writable: true, expected_mint: None },
        SlotRequirement { must_sign: false, must_be_writable: true, expected_mint: Some(mint) },
        SlotRequirement { must_sign: true, must_be_writable: false, expected_mint: None },
    ]
}

/// The slot requirements of the burn operation: ledger writable, and the
/// source owner signing, writable, and of this mint.
pub open spec fn spec_burn_reqs(mint: Address) -> Seq<SlotRequirement> {
    seq![
        SlotRequirement { must_sign: false, must_be_writable: true, expected_mint: None },
        SlotRequirement { must_sign: true, must_be_writable: true, expected_mint: Some(mint) },
    ]
}

/// The failure an invocation reports, `None` when it succeeds: decoding
/// first, then account validation, then initialization, then the
/// operation's own checks.
pub open spec fn spec_process_err(
    t: SealanaToken,
    accounts: Seq<AccountMeta>,
    data: Seq<u8>,
) -> Option<TokenError> {
    match spec_decode_instruction(data) {
        Err(d) => Some(TokenError::Decode(d)),
        Ok(ins) => match ins {
            TokenInstruction::InitMint => match spec_validate(accounts, spec_init_reqs()) {
                Some(v) => Some(TokenError::Validation(v)),
                None => match spec_init_err(t, accounts[1]) {
                    Some(e) => Some(TokenError::Init(e)),
                    None => None,
                },
            },
            TokenInstruction::MintTo { amount } => match spec_validate(
                accounts,
                spec_mint_reqs(t.spec_mint_address()),
            ) {
                Some(v) => Some(TokenError::Validation(v)),
                None => if !t.is_initialized() {
                    Some(TokenError::NotInitialized)
                } else {
                    match spec_mint_err(t, accounts[2], amount) {
                        Some(e) => Some(TokenError::Op(e)),
                        None => None,
                    }
                },
            },
            TokenInstruction::Burn { amount } => match spec_validate(
                accounts,
                spec_burn_reqs(t.spec_mint_address()),
            ) {
                Some(v) => Some(TokenError::Validation(v)),
                None => if !t.is_initialized() {
                    Some(TokenError::NotInitialized)
                } else {
                    match spec_burn_err(t, accounts[1], amount) {
                        Some(e) => Some(TokenError::Op(e)),
                        None => None,
                    }
                },
            },
        },
    }
}

/// The single entry function: (program identity, ordered accounts,
/// instruction bytes) in, success or one typed failure out. The host
/// guarantees the program identity addresses this program; the dispatcher
/// does not read it. On failure the ledger is exactly as it was; on
/// success the decoded operation's full effect has been applied.
pub fn process_instruction(
    token: &mut SealanaToken,
    _program_id: &Address,
    accounts: &Vec<AccountMeta>,
    instruction_data: &[u8],
) -> (r: Result<(), TokenError>)
    requires
        old(token).wf(),
    ensures
        match r {
            Err(e) => {
                &&& Some(e) == spec_process_err(*old(token), accounts@, instruction_data@)
                &&& *final(token) == *old(token)
            },
            Ok(_) => {
                &&& spec_process_err(*old(token), accounts@, instruction_data@) is None
                &&& match spec_decode_instruction(instruction_data@) {
                    Ok(TokenInstruction::InitMint) => {
                        &&& final(token).is_initialized()
                        &&& final(token).spec_authority() == accounts@[1].key
                        &&& final(token).spec_supply() == 0
                        &&& final(token).spec_balances() == old(token).spec_balances()
                        &&& same_config(*old(token), *final(token))
                        &&& final(token).wf()
                    },
                    Ok(TokenInstruction::MintTo { amount }) => mint_transition(
                        *old(token),
                        *final(token),
                        accounts@[1].key,
                        amount,
                    ),
                    Ok(TokenInstruction::Burn { amount }) => burn_transition(
                        *old(token),
                        *final(token),
                        accounts@[1].key,
                        amount,
                    ),
                    _ => false,
                }
            },
        },
{
    let ins = match decode_instruction(instruction_data) {
        Ok(ins) => ins,
        Err(d) => {
            return Err(TokenError::Decode(d));
        },
    };
    match ins {
        TokenInstruction::InitMint => {
            let mut reqs: Vec<SlotRequirement> = Vec::new();
            reqs.push(
                SlotRequirement { must_sign: false, must_be_writable: true, expected_mint: None },
            );
            reqs.push(
                SlotRequirement { must_sign: true, must_be_writable: false, expected_mint: None },
            );
            proof {
                assert(reqs@ =~= spec_init_reqs());
            }
            match validate(accounts, &reqs) {
                Ok(_) => {},
                Err(v) => {
                    return Err(TokenError::Validation(v));
                },
            }
            match token.init_mint(&accounts[1]) {
                Ok(_) => Ok(()),
                Err(e) => Err(TokenError::Init(e)),
            }
        },
        TokenInstruction::MintTo { amount } => {
            let mint = token.mint_address();
            let mut reqs: Vec<SlotRequirement> = Vec::new();
            reqs.push(
                SlotRequirement { must_sign: false, must_be_writable: true, expected_mint: None },
            );
            reqs.push(
                SlotRequirement {
                    must_sign: false,
                    must_be_writable: true,
                    expected_mint: Some(mint),
                },
            );
            reqs.push(
                SlotRequirement { must_sign: true, must_be_writable: false, expected_mint: None },
            );
            proof {
                assert(reqs@ =~= spec_mint_reqs(old(token).spec_mint_address()));
            }
            match validate(accounts, &reqs) {
                Ok(_) => {},
                Err(v) => {
                    return Err(TokenError::Validation(v));
                },
            }
            if !token.is_init() {
                return Err(TokenError::NotInitialized);
            }
            let dest_owner = accounts[1].key;
            match token.mint_to(&accounts[2], dest_owner, amount) {
                Ok(_) => Ok(()),
                Err(e) => Err(TokenError::Op(e)),
            }
        },
        TokenInstruction::Burn { amount } => {
            let mint = token.mint_address();
            let mut reqs: Vec<SlotRequirement> = Vec::new();
            reqs.push(
                SlotRequirement { must_sign: false, must_be_writable: true, expected_mint: None },
            );
            reqs.push(
                SlotRequirement {
                    must_sign: true,
                    must_be_writable: true,
                    expected_mint: Some(mint),
                },
            );
            proof {
                assert(reqs@ =~= spec_burn_reqs(old(token).spec_mint_address()));
            }
            match validate(accounts, &reqs) {
                Ok(_) => {},
                Err(v) => {
                    return Err(TokenError::Validation(v));
                },
            }
            if !token.is_init() {
                return Err(TokenError::NotInitialized);
            }
            match token.burn(&accounts[1], amount) {
                Ok(_) => Ok(()),
                Err(e) => Err(TokenError::Op(e)),
            }
        },
    }
}

} // verus!
