//! The account validator: pure checks on the host-supplied account handles
//! (signer flag, writability, stored mint field, count) that every
//! operation runs before any state is touched.

use vstd::prelude::*;
use crate::records::Address;
use crate::errors::ValidationError;

verus! {

/// A host-supplied account handle as the validator sees it: the account's
/// key, its flags, and the mint field stored in its record bytes, when the
/// account holds a balance record (`None` for accounts without one).
#[derive(Clone, Copy, PartialEq, Eq, Structural, Debug)]
pub struct AccountMeta {
    pub key: Address,
    pub is_signer: bool,
    pub is_writable: bool,
    pub mint_field: Option<Address>,
}

/// What one account slot must satisfy for an operation: a required signer
/// bit, a required writable bit, and, when `expected_mint` is set, that a
/// stored mint field (if the account has one) equals the given mint.
#[derive(Clone, Copy, PartialEq, Eq, Structural, Debug)]
pub struct SlotRequirement {
    pub must_sign: bool,
    pub must_be_writable: bool,
    pub expected_mint: Option<Address>,
}

/// The first failure of one account against one slot's requirements,
/// `None` when the slot passes. Checks run in the order signer,
/// writability, mint field.
pub open spec fn spec_slot_error(acct: AccountMeta, req: SlotRequirement) -> Option<
    ValidationError,
> {
    if req.must_sign && !acct.is_signer {
        Some(ValidationError::MissingSigner)
    } else if req.must_be_writable && !acct.is_writable {
        Some(ValidationError::AccountNotWritable)
    } else if match (req.expected_mint, acct.mint_field) {
        (Some(m), Some(f)) => f != m,
        _ => false,
    } {
        Some(ValidationError::WrongMint)
    } else {
        None
    }
}

/// The first failure over the slots `from..reqs.len()`, checked in order,
/// `None` when all pass.
pub open spec fn spec_validate_from(
    accounts: Seq<AccountMeta>,
    reqs: Seq<SlotRequirement>,
    from: int,
) -> Option<ValidationError>
    recommends
        reqs.len() <= accounts.len(),
        0 <= from <= reqs.len(),
    decreases reqs.len() - from,
{
    if from >= reqs.len() {
        None
    } else {
        match spec_slot_error(accounts[from], reqs[from]) {
            Some(e) => Some(e),
            None => spec_validate_from(accounts, reqs, from + 1),
        }
    }
}

/// The outcome of validating an account list against an operation's slot
/// requirements: too few accounts fail first, then each slot in order.
pub open spec fn spec_validate(accounts: Seq<AccountMeta>, reqs: Seq<SlotRequirement>) -> Option<
    ValidationError,
> {
    if accounts.len() < reqs.len() {
        Some(ValidationError::UnexpectedAccountCount)
    } else {
        spec_validate_from(accounts, reqs, 0)
    }
}

/// Verifies the supplied accounts against the operation's requirements:
/// account count, required signer bits, required writability, and stored
/// mint affiliation. Pure; no side effects.
pub fn validate(accounts: &Vec<AccountMeta>, reqs: &Vec<SlotRequirement>) -> (r: Result<
    (),
    ValidationError,
>)
    ensures
        r == match spec_validate(accounts@, reqs@) {
            Some(e) => Result::<(), ValidationError>::Err(e),
            None => Result::<(), ValidationError>::Ok(()),
        },
{
    if accounts.len() < reqs.len() {
        return Err(ValidationError::UnexpectedAccountCount);
    }
    let mut i: usize = 0;
    while i < reqs.len()
        invariant
            0 <= i <= reqs@.len(),
            reqs@.len() <= accounts@.len(),
            spec_validate_from(accounts@, reqs@, 0) == spec_validate_from(
                accounts@,
                reqs@,
                i as int,
            ),
        decreases reqs@.len() - i,
    {
        let acct = &accounts[i];
        let req = &reqs[i];
        if req.must_sign && !acct.is_signer {
            return Err(ValidationError::MissingSigner);
        }
        if req.must_be_writable && !acct.is_writable {
            return Err(ValidationError::AccountNotWritable);
        }
        match (req.expected_mint, acct.mint_field) {
            (Some(m), Some(f)) => {
                if f != m {
                    return Err(ValidationError::WrongMint);
                }
            },
            _ => {},
        }
        assert(spec_slot_error(accounts@[i as int], reqs@[i as int]) is None);
        i = i + 1;
    }
    Ok(())
}

} // verus!
