//! The ledger's data model: fixed-size addresses, the mint record and the
//! per-holder balance records, together with the spec-level helpers that
//! the supply-conservation invariant is stated with.

use vstd::prelude::*;

verus! {

/// A fixed-size (256-bit) identifier for a mint, a holder or an authority,
/// held as four 64-bit words. Its canonical byte form is the 32-byte
/// little-endian concatenation of the words (see `codec`).
#[derive(Clone, Copy, PartialEq, Eq, Structural, Debug)]
pub struct Address {
    pub w0: u64,
    pub w1: u64,
    pub w2: u64,
    pub w3: u64,
}

impl Address {
    pub fn new(w0: u64, w1: u64, w2: u64, w3: u64) -> (r: Address)
        ensures
            r == (Address { w0, w1, w2, w3 }),
    {
        Address { w0, w1, w2, w3 }
    }
}

/// The single mint record: the canonical supply counter plus the metadata
/// established once at initialization.
#[derive(Clone, Copy, PartialEq, Eq, Structural, Debug)]
pub struct MintRecord {
    pub mint_address: Address,
    pub authority: Address,
    pub decimals: u8,
    pub total_supply: u64,
}

/// One holder's balance of the token, keyed by owner identity and mint.
#[derive(Clone, Copy, PartialEq, Eq, Structural, Debug)]
pub struct BalanceRecord {
    pub owner_address: Address,
    pub mint_address: Address,
    pub amount: u64,
}

/// The sum of all balance amounts in a store, as a mathematical integer.
pub open spec fn sum_amounts(bals: Seq<BalanceRecord>) -> int
    decreases bals.len(),
{
    if bals.len() == 0 {
        0
    } else {
        bals[0].amount + sum_amounts(bals.skip(1))
    }
}

/// The amount held by `owner` in a store, zero when no record exists.
pub open spec fn balance_in(bals: Seq<BalanceRecord>, owner: Address) -> u64
    decreases bals.len(),
{
    if bals.len() == 0 {
        0u64
    } else if bals[0].owner_address == owner {
        bals[0].amount
    } else {
        balance_in(bals.skip(1), owner)
    }
}

/// Whether `owner` has a record (possibly of amount zero) in the store.
pub open spec fn has_record(bals: Seq<BalanceRecord>, owner: Address) -> bool {
    exists|i: int| 0 <= i < bals.len() && bals[i].owner_address == owner
}

/// No two records share an owner.
pub open spec fn owners_unique(bals: Seq<BalanceRecord>) -> bool {
    forall|i: int, j: int|
        0 <= i < j < bals.len() ==> bals[i].owner_address != bals[j].owner_address
}

/// Every record in the store belongs to mint `mint_address`.
pub open spec fn all_of_mint(bals: Seq<BalanceRecord>, mint_address: Address) -> bool {
    forall|i: int| 0 <= i < bals.len() ==> bals[i].mint_address == mint_address
}

/// `i` is the first index holding `owner`'s record.
pub open spec fn first_match(bals: Seq<BalanceRecord>, i: int, owner: Address) -> bool {
    &&& 0 <= i < bals.len()
    &&& bals[i].owner_address == owner
    &&& forall|j: int| 0 <= j < i ==> bals[j].owner_address != owner
}

pub proof fn lemma_sum_nonneg(bals: Seq<BalanceRecord>)
    ensures
        sum_amounts(bals) >= 0,
    decreases bals.len(),
{
    if bals.len() > 0 {
        lemma_sum_nonneg(bals.skip(1));
    }
}

/// Replacing the record at `i` shifts the sum by the difference in amounts.
pub proof fn lemma_sum_update(bals: Seq<BalanceRecord>, i: int, r: BalanceRecord)
    requires
        0 <= i < bals.len(),
    ensures
        sum_amounts(bals.update(i, r)) == sum_amounts(bals) - bals[i].amount + r.amount,
    decreases bals.len(),
{
    if i == 0 {
        assert(bals.update(0, r).skip(1) =~= bals.skip(1));
    } else {
        assert(bals.update(i, r).skip(1) =~= bals.skip(1).update(i - 1, r));
        lemma_sum_update(bals.skip(1), i - 1, r);
    }
}

/// Appending a record adds its amount to the sum.
pub proof fn lemma_sum_push(bals: Seq<BalanceRecord>, r: BalanceRecord)
    ensures
        sum_amounts(bals.push(r)) == sum_amounts(bals) + r.amount,
    decreases bals.len(),
{
    if bals.len() == 0 {
        assert(bals.push(r)[0] == r);
        assert(bals.push(r).skip(1) =~= Seq::<BalanceRecord>::empty());
        assert(sum_amounts(bals.push(r)) == r.amount + sum_amounts(
            Seq::<BalanceRecord>::empty(),
        ));
    } else {
        assert(bals.push(r)[0] == bals[0]);
        assert(bals.push(r).skip(1) =~= bals.skip(1).push(r));
        lemma_sum_push(bals.skip(1), r);
        assert(sum_amounts(bals.push(r)) == bals[0].amount + sum_amounts(
            bals.skip(1).push(r),
        ));
    }
}

/// The sum splits at any index into the sums of the two halves.
pub proof fn lemma_sum_split(bals: Seq<BalanceRecord>, k: int)
    requires
        0 <= k <= bals.len(),
    ensures
        sum_amounts(bals) == sum_amounts(bals.take(k)) + sum_amounts(bals.skip(k)),
    decreases k,
{
    if k == 0 {
        assert(bals.take(0) =~= Seq::<BalanceRecord>::empty());
        assert(bals.skip(0) =~= bals);
    } else {
        assert(bals.take(k)[0] == bals[0]);
        assert(bals.take(k).skip(1) =~= bals.skip(1).take(k - 1));
        assert(bals.skip(k) =~= bals.skip(1).skip(k - 1));
        lemma_sum_split(bals.skip(1), k - 1);
    }
}

/// No single balance exceeds the sum of all balances.
pub proof fn lemma_balance_le_sum(bals: Seq<BalanceRecord>, owner: Address)
    ensures
        balance_in(bals, owner) <= sum_amounts(bals),
    decreases bals.len(),
{
    if bals.len() > 0 {
        lemma_sum_nonneg(bals.skip(1));
        lemma_balance_le_sum(bals.skip(1), owner);
    }
}

/// Two distinct holders' balances together do not exceed the sum.
pub proof fn lemma_two_balances_le_sum(bals: Seq<BalanceRecord>, x: Address, y: Address)
    requires
        x != y,
    ensures
        balance_in(bals, x) + balance_in(bals, y) <= sum_amounts(bals),
    decreases bals.len(),
{
    if bals.len() > 0 {
        if bals[0].owner_address == x {
            lemma_balance_le_sum(bals.skip(1), y);
        } else if bals[0].owner_address == y {
            lemma_balance_le_sum(bals.skip(1), x);
        } else {
            lemma_two_balances_le_sum(bals.skip(1), x, y);
        }
    }
}

/// The balance of an owner is the amount at the first index holding it.
pub proof fn lemma_balance_at_first(bals: Seq<BalanceRecord>, i: int, owner: Address)
    requires
        first_match(bals, i, owner),
    ensures
        balance_in(bals, owner) == bals[i].amount,
    decreases i,
{
    if i > 0 {
        assert(first_match(bals.skip(1), i - 1, owner)) by {
            assert(forall|j: int|
                0 <= j < i - 1 ==> bals.skip(1)[j] == bals[j + 1]);
        }
        lemma_balance_at_first(bals.skip(1), i - 1, owner);
    }
}

/// An owner without a record holds zero.
pub proof fn lemma_balance_absent(bals: Seq<BalanceRecord>, owner: Address)
    requires
        !has_record(bals, owner),
    ensures
        balance_in(bals, owner) == 0,
    decreases bals.len(),
{
    if bals.len() > 0 {
        assert(!has_record(bals.skip(1), owner)) by {
            if has_record(bals.skip(1), owner) {
                let k = choose|k: int|
                    0 <= k < bals.skip(1).len() && bals.skip(1)[k].owner_address == owner;
                assert(bals[k + 1].owner_address == owner);
            }
        }
        lemma_balance_absent(bals.skip(1), owner);
    }
}

/// Replacing the first record of an owner sets that owner's balance and
/// leaves every other balance as it was.
pub proof fn lemma_balance_update(bals: Seq<BalanceRecord>, i: int, r: BalanceRecord)
    requires
        first_match(bals, i, r.owner_address),
    ensures
        balance_in(bals.update(i, r), r.owner_address) == r.amount,
        forall|o: Address|
            o != r.owner_address ==> balance_in(bals.update(i, r), o) == balance_in(bals, o),
    decreases bals.len(),
{
    let upd = bals.update(i, r);
    if i == 0 {
        assert(upd[0] == r);
        assert(upd.skip(1) =~= bals.skip(1));
    } else {
        assert(upd[0] == bals[0]);
        assert(upd.skip(1) =~= bals.skip(1).update(i - 1, r));
        assert(first_match(bals.skip(1), i - 1, r.owner_address)) by {
            assert(forall|j: int|
                0 <= j < i - 1 ==> bals.skip(1)[j] == bals[j + 1]);
        }
        lemma_balance_update(bals.skip(1), i - 1, r);
        assert(balance_in(upd, r.owner_address) == r.amount);
        assert forall|o: Address|
            o != r.owner_address implies balance_in(upd, o) == balance_in(bals, o) by {
            if bals[0].owner_address != o {
                assert(balance_in(upd, o) == balance_in(bals.skip(1).update(i - 1, r), o));
                assert(balance_in(bals, o) == balance_in(bals.skip(1), o));
            }
        }
    }
}

/// Appending a record for an owner without one sets that owner's balance
/// and leaves every other balance as it was.
pub proof fn lemma_balance_push(bals: Seq<BalanceRecord>, r: BalanceRecord)
    requires
        !has_record(bals, r.owner_address),
    ensures
        balance_in(bals.push(r), r.owner_address) == r.amount,
        forall|o: Address|
            o != r.owner_address ==> balance_in(bals.push(r), o) == balance_in(bals, o),
    decreases bals.len(),
{
    let ext = bals.push(r);
    if bals.len() == 0 {
        assert(ext[0] == r);
        assert(ext.skip(1) =~= Seq::<BalanceRecord>::empty());
        assert forall|o: Address|
            o != r.owner_address implies balance_in(ext, o) == balance_in(bals, o) by {
            assert(balance_in(ext, o) == balance_in(ext.skip(1), o));
        }
    } else {
        assert(ext[0] == bals[0]);
        assert(bals[0].owner_address != r.owner_address);
        assert(ext.skip(1) =~= bals.skip(1).push(r));
        assert(!has_record(bals.skip(1), r.owner_address)) by {
            if has_record(bals.skip(1), r.owner_address) {
                let k = choose|k: int|
                    0 <= k < bals.skip(1).len() && bals.skip(1)[k].owner_address
                        == r.owner_address;
                assert(bals[k + 1].owner_address == r.owner_address);
            }
        }
        lemma_balance_push(bals.skip(1), r);
        assert forall|o: Address|
            o != r.owner_address implies balance_in(ext, o) == balance_in(bals, o) by {
            if bals[0].owner_address != o {
                assert(balance_in(ext, o) == balance_in(bals.skip(1).push(r), o));
                assert(balance_in(bals, o) == balance_in(bals.skip(1), o));
            }
        }
    }
}

} // verus!
