//! The ledger itself: one mint record plus the balance store, with the
//! authorized mint, burn and transfer operations.
//!
//! The well-formedness predicate `wf` carries the central invariant —
//! the supply counter equals the sum of all balance amounts — and every
//! operation both demands and re-establishes it. An operation whose
//! checks fail returns a typed error and leaves the ledger untouched;
//! zero-balance records are retained rather than pruned, so a holder's
//! record, once created, persists.

use vstd::prelude::*;
use vstd::pervasive::unreached;
use crate::records::Address;
use crate::records::MintRecord;
use crate::records::BalanceRecord;
use crate::records::sum_amounts;
use crate::records::balance_in;
use crate::records::has_record;
use crate::records::owners_unique;
use crate::records::all_of_mint;
use crate::records::first_match;
use crate::records::lemma_sum_update;
use crate::records::lemma_sum_split;
use crate::records::lemma_sum_nonneg;
use crate::records::lemma_sum_push;
use crate::records::lemma_balance_le_sum;
use crate::records::lemma_two_balances_le_sum;
use crate::records::lemma_balance_at_first;
use crate::records::lemma_balance_absent;
use crate::records::lemma_balance_update;
use crate::records::lemma_balance_push;
use crate::accounts::AccountMeta;
use crate::errors::InitError;
use crate::errors::OpError;

verus! {

/// The token ledger: the deployment's mint identity and decimals, the
/// mint record once initialization has created it, and the balance store.
pub struct SealanaToken {
    mint_address: Address,
    decimals: u8,
    mint: Option<MintRecord>,
    balances: Vec<BalanceRecord>,
}

impl SealanaToken {
    /// The mint identity this deployment was configured with.
    pub closed spec fn spec_mint_address(&self) -> Address {
        self.mint_address
    }

    /// The decimals this deployment was configured with.
    pub closed spec fn spec_decimals(&self) -> u8 {
        self.decimals
    }

    /// Whether the one-time initialization has created the mint record.
    pub closed spec fn is_initialized(&self) -> bool {
        self.mint is Some
    }

    /// The mint record, once initialization has created it.
    pub closed spec fn spec_mint_record(&self) -> Option<MintRecord> {
        self.mint
    }

    /// The stored mint authority; meaningful only once initialized.
    pub closed spec fn spec_authority(&self) -> Address {
        match self.mint {
            Some(m) => m.authority,
            None => Address { w0: 0, w1: 0, w2: 0, w3: 0 },
        }
    }

    /// The canonical supply counter; zero before initialization.
    pub closed spec fn spec_supply(&self) -> u64 {
        match self.mint {
            Some(m) => m.total_supply,
            None => 0u64,
        }
    }

    /// The balance store's records, in creation order.
    pub closed spec fn spec_balances(&self) -> Seq<BalanceRecord> {
        self.balances@
    }

    /// The amount held by `owner`; zero when no record exists.
    pub open spec fn spec_balance_of(&self, owner: Address) -> u64 {
        balance_in(self.spec_balances(), owner)
    }

    /// Well-formedness: owners are unique, every record belongs to the
    /// configured mint, the mint record (once created) carries the
    /// configured identity and decimals, no records exist before
    /// initialization, and — the conservation invariant — the supply
    /// counter equals the sum of all balance amounts.
    pub open spec fn wf(&self) -> bool {
        &&& owners_unique(self.spec_balances())
        &&& all_of_mint(self.spec_balances(), self.spec_mint_address())
        &&& match self.spec_mint_record() {
            Some(m) => {
                &&& m.mint_address == self.spec_mint_address()
                &&& m.decimals == self.spec_decimals()
                &&& sum_amounts(self.spec_balances()) == m.total_supply
            },
            None => self.spec_balances().len() == 0,
        }
    }

    /// A fresh, uninitialized ledger for the given deployment
    /// configuration.
    pub fn new(mint_address: Address, decimals: u8) -> (r: SealanaToken)
        ensures
            r.wf(),
            !r.is_initialized(),
            r.spec_mint_address() == mint_address,
            r.spec_decimals() == decimals,
            r.spec_balances().len() == 0,
    {
        SealanaToken { mint_address, decimals, mint: None, balances: Vec::new() }
    }

    /// One-time creation of the mint record: establishes the signing
    /// account as the mint authority and a supply of zero.
    /// Re-initialization is rejected, not silently ignored.
    pub fn init_mint(&mut self, authority: &AccountMeta) -> (r: Result<(), InitError>)
        requires
            old(self).wf(),
        ensures
            match r {
                Ok(_) => {
                    &&& spec_init_err(*old(self), *authority) is None
                    &&& final(self).is_initialized()
                    &&& final(self).spec_authority() == authority.key
                    &&& final(self).spec_supply() == 0
                    &&& final(self).spec_balances() == old(self).spec_balances()
                    &&& same_config(*old(self), *final(self))
                    &&& final(self).wf()
                },
                Err(e) => {
                    &&& Some(e) == spec_init_err(*old(self), *authority)
                    &&& *final(self) == *old(self)
                },
            },
    {
        if self.mint.is_some() {
            return Err(InitError::AlreadyInitialized);
        }
        if !authority.is_signer {
            return Err(InitError::MissingSigner);
        }
        self.mint = Some(
            MintRecord {
                mint_address: self.mint_address,
                authority: authority.key,
                decimals: self.decimals,
                total_supply: 0,
            },
        );
        Ok(())
    }

    /// Mints `amount` new tokens to `dest_owner`: the supply counter and
    /// the destination balance each grow by `amount`, both checked, both
    /// or neither. Only the stored authority, signing, may mint.
    pub fn mint_to(&mut self, authority: &AccountMeta, dest_owner: Address, amount: u64) -> (r:
        Result<(), OpError>)
        requires
            old(self).wf(),
            old(self).is_initialized(),
        ensures
            match r {
                Ok(_) => {
                    &&& spec_mint_err(*old(self), *authority, amount) is None
                    &&& mint_transition(*old(self), *final(self), dest_owner, amount)
                },
                Err(e) => {
                    &&& Some(e) == spec_mint_err(*old(self), *authority, amount)
                    &&& *final(self) == *old(self)
                },
            },
    {
        let mrec = match self.mint {
            Some(m) => m,
            None => unreached(),
        };
        if !authority.is_signer || !(authority.key == mrec.authority) {
            return Err(OpError::Unauthorized);
        }
        if amount == 0 {
            return Err(OpError::ZeroAmount);
        }
        let new_supply = match mrec.total_supply.checked_add(amount) {
            Some(s) => s,
            None => {
                return Err(OpError::Overflow);
            },
        };
        let ghost bals0 = self.balances@;
        match self.find_balance(&dest_owner) {
            Some(i) => {
                let mut rec = self.balances[i];
                proof {
                    lemma_balance_at_first(bals0, i as int, dest_owner);
                    lemma_balance_le_sum(bals0, dest_owner);
                }
                rec.amount = rec.amount + amount;
                self.balances[i] = rec;
                proof {
                    lemma_sum_update(bals0, i as int, rec);
                    lemma_balance_update(bals0, i as int, rec);
                }
            },
            None => {
                proof {
                    lemma_balance_absent(bals0, dest_owner);
                }
                let rec = BalanceRecord {
                    owner_address: dest_owner,
                    mint_address: self.mint_address,
                    amount,
                };
                self.balances.push(rec);
                proof {
                    lemma_sum_push(bals0, rec);
                    lemma_balance_push(bals0, rec);
                }
            },
        }
        self.mint = Some(
            MintRecord {
                mint_address: mrec.mint_address,
                authority: mrec.authority,
                decimals: mrec.decimals,
                total_supply: new_supply,
            },
        );
        Ok(())
    }

    /// Burns `amount` tokens from the signing owner's balance: the supply
    /// counter and the owner's balance each shrink by `amount`, both
    /// checked, both or neither. The owner's record is retained even when
    /// its amount reaches zero.
    pub fn burn(&mut self, owner: &AccountMeta, amount: u64) -> (r: Result<(), OpError>)
        requires
            old(self).wf(),
            old(self).is_initialized(),
        ensures
            match r {
                Ok(_) => {
                    &&& spec_burn_err(*old(self), *owner, amount) is None
                    &&& burn_transition(*old(self), *final(self), owner.key, amount)
                },
                Err(e) => {
                    &&& Some(e) == spec_burn_err(*old(self), *owner, amount)
                    &&& *final(self) == *old(self)
                },
            },
    {
        let mrec = match self.mint {
            Some(m) => m,
            None => unreached(),
        };
        if !owner.is_signer {
            return Err(OpError::Unauthorized);
        }
        if amount == 0 {
            return Err(OpError::ZeroAmount);
        }
        let ghost bals0 = self.balances@;
        let i = match self.find_balance(&owner.key) {
            Some(i) => i,
            None => {
                proof {
                    lemma_balance_absent(bals0, owner.key);
                }
                return Err(OpError::InsufficientFunds);
            },
        };
        let mut rec = self.balances[i];
        proof {
            lemma_balance_at_first(bals0, i as int, owner.key);
        }
        if amount > rec.amount {
            return Err(OpError::InsufficientFunds);
        }
        proof {
            lemma_balance_le_sum(bals0, owner.key);
        }
        let new_supply = match mrec.total_supply.checked_sub(amount) {
            Some(s) => s,
            None => {
                // Unreachable while the conservation invariant holds: no
                // single balance exceeds the supply.
                return Err(OpError::Overflow);
            },
        };
        rec.amount = rec.amount - amount;
        self.balances[i] = rec;
        proof {
            lemma_sum_update(bals0, i as int, rec);
            lemma_balance_update(bals0, i as int, rec);
        }
        self.mint = Some(
            MintRecord {
                mint_address: mrec.mint_address,
                authority: mrec.authority,
                decimals: mrec.decimals,
                total_supply: new_supply,
            },
        );
        Ok(())
    }

    /// Moves `amount` tokens from the signing owner to `to`: the source
    /// balance shrinks and the destination balance grows by `amount`,
    /// both checked, both or neither; the supply counter is untouched.
    /// A self-transfer with sufficient funds is a valid no-op.
    pub fn transfer(&mut self, owner: &AccountMeta, to: Address, amount: u64) -> (r: Result<
        (),
        OpError,
    >)
        requires
            old(self).wf(),
            old(self).is_initialized(),
        ensures
            match r {
                Ok(_) => {
                    &&& spec_transfer_err(*old(self), *owner, amount) is None
                    &&& transfer_transition(*old(self), *final(self), owner.key, to, amount)
                },
                Err(e) => {
                    &&& Some(e) == spec_transfer_err(*old(self), *owner, amount)
                    &&& *final(self) == *old(self)
                },
            },
    {
        if !owner.is_signer {
            return Err(OpError::Unauthorized);
        }
        if amount == 0 {
            return Err(OpError::ZeroAmount);
        }
        let ghost bals0 = self.balances@;
        let src_idx = match self.find_balance(&owner.key) {
            Some(i) => i,
            None => {
                proof {
                    lemma_balance_absent(bals0, owner.key);
                }
                return Err(OpError::InsufficientFunds);
            },
        };
        let mut srec = self.balances[src_idx];
        proof {
            lemma_balance_at_first(bals0, src_idx as int, owner.key);
        }
        if amount > srec.amount {
            return Err(OpError::InsufficientFunds);
        }
        if owner.key == to {
            // Self-transfer: a deliberate no-op once the checks pass.
            return Ok(());
        }
        let dst_find = self.find_balance(&to);
        srec.amount = srec.amount - amount;
        self.balances[src_idx] = srec;
        let ghost bals1 = self.balances@;
        proof {
            lemma_sum_update(bals0, src_idx as int, srec);
            lemma_balance_update(bals0, src_idx as int, srec);
            assert(forall|k: int|
                0 <= k < bals1.len() ==> bals1[k].owner_address == bals0[k].owner_address);
            lemma_two_balances_le_sum(bals0, owner.key, to);
        }
        match dst_find {
            Some(j) => {
                let mut drec = self.balances[j];
                proof {
                    lemma_balance_at_first(bals0, j as int, to);
                    assert(first_match(bals1, j as int, to));
                    assert(drec == bals0[j as int]);
                }
                drec.amount = drec.amount + amount;
                self.balances[j] = drec;
                proof {
                    lemma_sum_update(bals1, j as int, drec);
                    lemma_balance_update(bals1, j as int, drec);
                    lemma_balance_at_first(bals1, j as int, to);
                }
            },
            None => {
                let drec = BalanceRecord {
                    owner_address: to,
                    mint_address: self.mint_address,
                    amount,
                };
                proof {
                    lemma_balance_absent(bals0, to);
                    assert(!has_record(bals1, to)) by {
                        if has_record(bals1, to) {
                            let k = choose|k: int|
                                0 <= k < bals1.len() && bals1[k].owner_address == to;
                            assert(bals0[k].owner_address == to);
                        }
                    }
                    lemma_balance_absent(bals1, to);
                }
                self.balances.push(drec);
                proof {
                    lemma_sum_push(bals1, drec);
                    lemma_balance_push(bals1, drec);
                }
            },
        }
        Ok(())
    }

    /// The first index holding `owner`'s record, if any.
    fn find_balance(&self, owner: &Address) -> (r: Option<usize>)
        ensures
            match r {
                Some(i) => first_match(self.spec_balances(), i as int, *owner),
                None => !has_record(self.spec_balances(), *owner),
            },
    {
        let mut i: usize = 0;
        while i < self.balances.len()
            invariant
                0 <= i <= self.balances@.len(),
                forall|j: int| 0 <= j < i ==> self.balances@[j].owner_address != *owner,
            decreases self.balances@.len() - i,
        {
            if self.balances[i].owner_address == *owner {
                return Some(i);
            }
            i = i + 1;
        }
        None
    }

    /// Whether initialization has run.
    pub fn is_init(&self) -> (r: bool)
        ensures
            r == self.is_initialized(),
    {
        self.mint.is_some()
    }

    /// The canonical supply counter; zero before initialization.
    pub fn total_supply(&self) -> (r: u64)
        ensures
            r == self.spec_supply(),
    {
        match self.mint {
            Some(m) => m.total_supply,
            None => 0,
        }
    }

    /// The configured mint identity.
    pub fn mint_address(&self) -> (r: Address)
        ensures
            r == self.spec_mint_address(),
    {
        self.mint_address
    }

    /// The configured decimals.
    pub fn decimals(&self) -> (r: u8)
        ensures
            r == self.spec_decimals(),
    {
        self.decimals
    }

    /// The stored mint authority, once initialized.
    pub fn authority(&self) -> (r: Option<Address>)
        ensures
            r == if self.is_initialized() {
                Some(self.spec_authority())
            } else {
                Option::<Address>::None
            },
    {
        match self.mint {
            Some(m) => Some(m.authority),
            None => None,
        }
    }

    /// The amount held by `owner`; zero when no record exists.
    pub fn balance_of(&self, owner: &Address) -> (r: u64)
        ensures
            r == self.spec_balance_of(*owner),
    {
        let ghost bals = self.balances@;
        match self.find_balance(owner) {
            Some(i) => {
                proof {
                    lemma_balance_at_first(bals, i as int, *owner);
                }
                self.balances[i].amount
            },
            None => {
                proof {
                    lemma_balance_absent(bals, *owner);
                }
                0
            },
        }
    }

    /// How many balance records the store holds (zero-balance records
    /// are retained, so this counts holders ever credited).
    pub fn holder_count(&self) -> (r: usize)
        ensures
            r == self.spec_balances().len(),
    {
        self.balances.len()
    }

    /// The mint record, once initialization has created it; for hosts
    /// that persist the ledger through the byte layouts in `codec`.
    pub fn mint_record(&self) -> (r: Option<MintRecord>)
        ensures
            r == self.spec_mint_record(),
    {
        self.mint
    }

    /// The balance record at `i`, in creation order; for hosts that
    /// persist the ledger through the byte layouts in `codec`.
    pub fn balance_record_at(&self, i: usize) -> (r: BalanceRecord)
        requires
            i < self.spec_balances().len(),
        ensures
            r == self.spec_balances()[i as int],
    {
        self.balances[i]
    }

    /// Restores an initialized ledger from persisted records, accepting
    /// them exactly when they are consistent: every record of the mint,
    /// owners unique, and the amounts summing to the stored supply.
    pub fn from_records(mint: MintRecord, balances: Vec<BalanceRecord>) -> (r: Option<
        SealanaToken,
    >)
        ensures
            match r {
                Some(t) => {
                    &&& records_consistent(mint, balances@)
                    &&& t.wf()
                    &&& t.is_initialized()
                    &&& t.spec_mint_record() == Some(mint)
                    &&& t.spec_balances() == balances@
                    &&& t.spec_mint_address() == mint.mint_address
                    &&& t.spec_decimals() == mint.decimals
                },
                None => !records_consistent(mint, balances@),
            },
    {
        let n = balances.len();
        let mut i: usize = 0;
        while i < n
            invariant
                n == balances@.len(),
                0 <= i <= n,
                forall|j: int| 0 <= j < i ==> balances@[j].mint_address == mint.mint_address,
            decreases n - i,
        {
            if !(balances[i].mint_address == mint.mint_address) {
                return None;
            }
            i = i + 1;
        }
        let mut a: usize = 0;
        while a < n
            invariant
                n == balances@.len(),
                0 <= a <= n,
                forall|x: int, y: int|
                    0 <= x < y < a ==> balances@[x].owner_address != balances@[y].owner_address,
            decreases n - a,
        {
            let mut b: usize = 0;
            while b < a
                invariant
                    n == balances@.len(),
                    0 <= b <= a < n,
                    forall|x: int, y: int|
                        0 <= x < y < a ==> balances@[x].owner_address != balances@[y].owner_address,
                    forall|x: int|
                        0 <= x < b ==> balances@[x].owner_address != balances@[a as int].owner_address,
                decreases a - b,
            {
                if balances[b].owner_address == balances[a].owner_address {
                    return None;
                }
                b = b + 1;
            }
            a = a + 1;
        }
        let mut running: u64 = 0;
        let mut k: usize = 0;
        while k < n
            invariant
                n == balances@.len(),
                0 <= k <= n,
                running == sum_amounts(balances@.take(k as int)),
            decreases n - k,
        {
            proof {
                assert(balances@.take(k + 1) =~= balances@.take(k as int).push(
                    balances@[k as int],
                ));
                lemma_sum_push(balances@.take(k as int), balances@[k as int]);
            }
            running = match running.checked_add(balances[k].amount) {
                Some(s) => s,
                None => {
                    // The amounts already exceed any 64-bit supply.
                    proof {
                        lemma_sum_split(balances@, k + 1);
                        lemma_sum_nonneg(balances@.skip(k + 1));
                    }
                    return None;
                },
            };
            k = k + 1;
        }
        proof {
            assert(balances@.take(n as int) =~= balances@);
        }
        if running != mint.total_supply {
            return None;
        }
        Some(
            SealanaToken {
                mint_address: mint.mint_address,
                decimals: mint.decimals,
                mint: Some(mint),
                balances,
            },
        )
    }
}

/// Persisted records are consistent when every record belongs to the
/// mint, owners are unique, and the amounts sum to the stored supply.
pub open spec fn records_consistent(mint: MintRecord, bals: Seq<BalanceRecord>) -> bool {
    &&& owners_unique(bals)
    &&& all_of_mint(bals, mint.mint_address)
    &&& sum_amounts(bals) == mint.total_supply
}

/// The outcome of the initialization checks: the first failing check's
/// error, `None` when all pass.
pub open spec fn spec_init_err(t: SealanaToken, authority: AccountMeta) -> Option<InitError> {
    if t.is_initialized() {
        Some(InitError::AlreadyInitialized)
    } else if !authority.is_signer {
        Some(InitError::MissingSigner)
    } else {
        None
    }
}

/// The outcome of the mint checks, in order: authority identity and
/// signature, a nonzero amount, then supply overflow.
pub open spec fn spec_mint_err(t: SealanaToken, authority: AccountMeta, amount: u64) -> Option<
    OpError,
> {
    if !authority.is_signer || authority.key != t.spec_authority() {
        Some(OpError::Unauthorized)
    } else if amount == 0 {
        Some(OpError::ZeroAmount)
    } else if t.spec_supply() + amount > u64::MAX {
        Some(OpError::Overflow)
    } else {
        None
    }
}

/// The outcome of the burn checks, in order: the owner's signature, a
/// nonzero amount, then sufficient funds. Supply underflow cannot occur
/// while the conservation invariant holds, so no check can reach it.
pub open spec fn spec_burn_err(t: SealanaToken, owner: AccountMeta, amount: u64) -> Option<
    OpError,
> {
    if !owner.is_signer {
        Some(OpError::Unauthorized)
    } else if amount == 0 {
        Some(OpError::ZeroAmount)
    } else if amount > t.spec_balance_of(owner.key) {
        Some(OpError::InsufficientFunds)
    } else {
        None
    }
}

/// The outcome of the transfer checks, in order: the owner's signature, a
/// nonzero amount, then sufficient funds. Neither balance mutation can
/// overflow while the conservation invariant holds.
pub open spec fn spec_transfer_err(t: SealanaToken, owner: AccountMeta, amount: u64) -> Option<
    OpError,
> {
    if !owner.is_signer {
        Some(OpError::Unauthorized)
    } else if amount == 0 {
        Some(OpError::ZeroAmount)
    } else if amount > t.spec_balance_of(owner.key) {
        Some(OpError::InsufficientFunds)
    } else {
        None
    }
}

/// The deployment configuration is never changed by an operation.
pub open spec fn same_config(pre: SealanaToken, post: SealanaToken) -> bool {
    &&& post.spec_mint_address() == pre.spec_mint_address()
    &&& post.spec_decimals() == pre.spec_decimals()
}

/// What a successful mint does to the ledger: supply and the destination
/// balance grow by the amount, everything else is untouched, and
/// well-formedness is preserved.
pub open spec fn mint_transition(
    pre: SealanaToken,
    post: SealanaToken,
    dest: Address,
    amount: u64,
) -> bool {
    &&& pre.is_initialized()
    &&& post.is_initialized()
    &&& same_config(pre, post)
    &&& post.spec_authority() == pre.spec_authority()
    &&& post.spec_supply() == pre.spec_supply() + amount
    &&& post.spec_balance_of(dest) == pre.spec_balance_of(dest) + amount
    &&& forall|o: Address| o != dest ==> post.spec_balance_of(o) == pre.spec_balance_of(o)
    &&& post.wf()
}

/// What a successful burn does to the ledger: supply and the source
/// balance shrink by the amount, everything else is untouched, and
/// well-formedness is preserved.
pub open spec fn burn_transition(
    pre: SealanaToken,
    post: SealanaToken,
    from: Address,
    amount: u64,
) -> bool {
    &&& pre.is_initialized()
    &&& post.is_initialized()
    &&& same_config(pre, post)
    &&& post.spec_authority() == pre.spec_authority()
    &&& post.spec_supply() == pre.spec_supply() - amount
    &&& post.spec_balance_of(from) == pre.spec_balance_of(from) - amount
    &&& forall|o: Address| o != from ==> post.spec_balance_of(o) == pre.spec_balance_of(o)
    &&& post.wf()
}

/// What a successful transfer does to the ledger: a self-transfer leaves
/// it exactly as it was; otherwise the amount moves from source to
/// destination, the supply is untouched, and well-formedness is
/// preserved.
pub open spec fn transfer_transition(
    pre: SealanaToken,
    post: SealanaToken,
    from: Address,
    to: Address,
    amount: u64,
) -> bool {
    if from == to {
        post == pre
    } else {
        &&& pre.is_initialized()
        &&& post.is_initialized()
        &&& same_config(pre, post)
        &&& post.spec_authority() == pre.spec_authority()
        &&& post.spec_supply() == pre.spec_supply()
        &&& post.spec_balance_of(from) == pre.spec_balance_of(from) - amount
        &&& post.spec_balance_of(to) == pre.spec_balance_of(to) + amount
        &&& forall|o: Address|
            o != from && o != to ==> post.spec_balance_of(o) == pre.spec_balance_of(o)
        &&& post.wf()
    }
}

/// Law: conservation of supply. In every well-formed initialized ledger
/// the supply counter equals the sum of all balance amounts; since every
/// operation preserves well-formedness, this holds after any sequence of
/// mint, burn and transfer operations.
pub proof fn lemma_supply_conservation(t: SealanaToken)
    requires
        t.wf(),
        t.is_initialized(),
    ensures
        t.spec_supply() == sum_amounts(t.spec_balances()),
{
}

/// One successful ledger operation, for stating laws over sequences of
/// operations.
pub enum LedgerOp {
    Mint { dest: Address, amount: u64 },
    Burn { from: Address, amount: u64 },
    Transfer { from: Address, to: Address, amount: u64 },
}

/// The step relation of one successful operation, as the operations'
/// own contracts state it.
pub open spec fn op_transition(pre: SealanaToken, post: SealanaToken, op: LedgerOp) -> bool {
    match op {
        LedgerOp::Mint { dest, amount } => mint_transition(pre, post, dest, amount),
        LedgerOp::Burn { from, amount } => burn_transition(pre, post, from, amount),
        LedgerOp::Transfer { from, to, amount } => transfer_transition(pre, post, from, to, amount),
    }
}

/// `states` is a run of `ops`: one more state than operations, each
/// consecutive pair related by its operation's transition.
pub open spec fn is_run(states: Seq<SealanaToken>, ops: Seq<LedgerOp>) -> bool {
    &&& states.len() == ops.len() + 1
    &&& forall|i: int| 0 <= i < ops.len() ==> op_transition(states[i], states[i + 1], ops[i])
}

/// Law: conservation of supply over every run. Starting from any
/// well-formed initialized ledger, after any sequence of successful
/// mint, burn and transfer operations the supply counter equals the sum
/// of all balance amounts — in every intermediate state as well.
pub proof fn lemma_conservation_over_runs(states: Seq<SealanaToken>, ops: Seq<LedgerOp>)
    requires
        is_run(states, ops),
        states[0].wf(),
        states[0].is_initialized(),
    ensures
        forall|i: int|
            0 <= i < states.len() ==> #[trigger] states[i].spec_supply() == sum_amounts(
                states[i].spec_balances(),
            ),
{
    assert forall|i: int|
        0 <= i < states.len() implies #[trigger] states[i].spec_supply() == sum_amounts(
        states[i].spec_balances(),
    ) by {
        lemma_run_state_wf(states, ops, i);
    }
}

/// Every state of a run from a well-formed initialized ledger is itself
/// well-formed and initialized.
pub proof fn lemma_run_state_wf(states: Seq<SealanaToken>, ops: Seq<LedgerOp>, i: int)
    requires
        is_run(states, ops),
        states[0].wf(),
        states[0].is_initialized(),
        0 <= i < states.len(),
    ensures
        states[i].wf(),
        states[i].is_initialized(),
    decreases i,
{
    if i > 0 {
        lemma_run_state_wf(states, ops, i - 1);
        assert(op_transition(states[i - 1], states[i], ops[i - 1]));
    }
}

/// Law: a mint/burn round trip restores the ledger. Minting an amount to
/// a holder with zero balance and then burning the same amount from it
/// brings that balance back to zero, the supply back to its prior value,
/// and leaves every other balance as it was.
pub proof fn lemma_mint_burn_round_trip(
    t0: SealanaToken,
    t1: SealanaToken,
    t2: SealanaToken,
    owner: Address,
    amount: u64,
)
    requires
        t0.spec_balance_of(owner) == 0,
        mint_transition(t0, t1, owner, amount),
        burn_transition(t1, t2, owner, amount),
    ensures
        t2.spec_balance_of(owner) == 0,
        t2.spec_supply() == t0.spec_supply(),
        forall|o: Address| o != owner ==> t2.spec_balance_of(o) == t0.spec_balance_of(o),
{
}

/// Law: a transfer round trip restores both balances. Moving an amount
/// from X to Y and then the same amount from Y back to X restores every
/// balance and the supply; when X equals Y both steps are no-ops.
pub proof fn lemma_transfer_round_trip(
    t0: SealanaToken,
    t1: SealanaToken,
    t2: SealanaToken,
    x: Address,
    y: Address,
    amount: u64,
)
    requires
        transfer_transition(t0, t1, x, y, amount),
        transfer_transition(t1, t2, y, x, amount),
    ensures
        forall|o: Address| t2.spec_balance_of(o) == t0.spec_balance_of(o),
        t2.spec_supply() == t0.spec_supply(),
{
    if x != y {
        assert forall|o: Address| t2.spec_balance_of(o) == t0.spec_balance_of(o) by {
            if o == x {
            } else if o == y {
            }
        }
    }
}

} // verus!
