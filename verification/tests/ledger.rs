use sealana_token::accounts::AccountMeta;
use sealana_token::errors::{InitError, OpError, TokenError};
use sealana_token::records::Address;
use sealana_token::token::SealanaToken;

fn addr(n: u64) -> Address {
    Address::new(n, n + 1, n + 2, n + 3)
}

fn signer(key: Address) -> AccountMeta {
    AccountMeta { key, is_signer: true, is_writable: true, mint_field: None }
}

fn non_signer(key: Address) -> AccountMeta {
    AccountMeta { key, is_signer: false, is_writable: true, mint_field: None }
}

/// A ledger initialized with authority `k`, for the tests below.
fn initialized(k: Address) -> SealanaToken {
    let mut t = SealanaToken::new(addr(1000), 9);
    t.init_mint(&signer(k)).unwrap();
    t
}

#[test]
fn init_establishes_authority_and_zero_supply() {
    let k = addr(1);
    let mut t = SealanaToken::new(addr(1000), 9);
    assert!(!t.is_init());
    assert_eq!(t.total_supply(), 0);
    assert_eq!(t.authority(), None);
    t.init_mint(&signer(k)).unwrap();
    assert!(t.is_init());
    assert_eq!(t.authority(), Some(k));
    assert_eq!(t.decimals(), 9);
    assert_eq!(t.total_supply(), 0);
}

#[test]
fn init_requires_signer() {
    let k = addr(1);
    let mut t = SealanaToken::new(addr(1000), 9);
    assert_eq!(t.init_mint(&non_signer(k)), Err(InitError::MissingSigner));
    assert!(!t.is_init());
}

#[test]
fn reinit_is_rejected() {
    let k = addr(1);
    let mut t = initialized(k);
    assert_eq!(t.init_mint(&signer(k)), Err(InitError::AlreadyInitialized));
    assert_eq!(t.authority(), Some(k));
}

#[test]
fn mint_credits_destination_and_supply() {
    let k = addr(1);
    let a = addr(10);
    let mut t = initialized(k);
    t.mint_to(&signer(k), a, 500).unwrap();
    assert_eq!(t.balance_of(&a), 500);
    assert_eq!(t.total_supply(), 500);
    t.mint_to(&signer(k), a, 250).unwrap();
    assert_eq!(t.balance_of(&a), 750);
    assert_eq!(t.total_supply(), 750);
    assert_eq!(t.holder_count(), 1);
}

#[test]
fn mint_zero_amount_fails_and_supply_unchanged() {
    let k = addr(1);
    let a = addr(10);
    let mut t = initialized(k);
    assert_eq!(t.mint_to(&signer(k), a, 0), Err(OpError::ZeroAmount));
    assert_eq!(t.total_supply(), 0);
    assert_eq!(t.balance_of(&a), 0);
}

#[test]
fn mint_by_non_authority_signer_fails_unchanged() {
    let k = addr(1);
    let impostor = addr(2);
    let a = addr(10);
    let mut t = initialized(k);
    // A valid signer, but not the stored authority.
    assert_eq!(t.mint_to(&signer(impostor), a, 100), Err(OpError::Unauthorized));
    assert_eq!(t.total_supply(), 0);
    assert_eq!(t.balance_of(&a), 0);
}

#[test]
fn mint_by_unsigned_authority_fails() {
    let k = addr(1);
    let a = addr(10);
    let mut t = initialized(k);
    assert_eq!(t.mint_to(&non_signer(k), a, 100), Err(OpError::Unauthorized));
    assert_eq!(t.total_supply(), 0);
}

#[test]
fn mint_overflow_is_checked() {
    let k = addr(1);
    let a = addr(10);
    let b = addr(20);
    let mut t = initialized(k);
    t.mint_to(&signer(k), a, u64::MAX).unwrap();
    assert_eq!(t.total_supply(), u64::MAX);
    assert_eq!(t.mint_to(&signer(k), b, 1), Err(OpError::Overflow));
    assert_eq!(t.total_supply(), u64::MAX);
    assert_eq!(t.balance_of(&b), 0);
}

#[test]
fn burn_debits_source_and_supply() {
    let k = addr(1);
    let a = addr(10);
    let mut t = initialized(k);
    t.mint_to(&signer(k), a, 1000).unwrap();
    t.burn(&signer(a), 300).unwrap();
    assert_eq!(t.balance_of(&a), 700);
    assert_eq!(t.total_supply(), 700);
}

#[test]
fn burn_more_than_balance_fails_unchanged() {
    let k = addr(1);
    let a = addr(10);
    let mut t = initialized(k);
    t.mint_to(&signer(k), a, 100).unwrap();
    assert_eq!(t.burn(&signer(a), 101), Err(OpError::InsufficientFunds));
    assert_eq!(t.balance_of(&a), 100);
    assert_eq!(t.total_supply(), 100);
}

#[test]
fn burn_zero_amount_fails() {
    let k = addr(1);
    let a = addr(10);
    let mut t = initialized(k);
    t.mint_to(&signer(k), a, 100).unwrap();
    assert_eq!(t.burn(&signer(a), 0), Err(OpError::ZeroAmount));
    assert_eq!(t.total_supply(), 100);
}

#[test]
fn burn_requires_signature() {
    let k = addr(1);
    let a = addr(10);
    let mut t = initialized(k);
    t.mint_to(&signer(k), a, 100).unwrap();
    assert_eq!(t.burn(&non_signer(a), 50), Err(OpError::Unauthorized));
    assert_eq!(t.balance_of(&a), 100);
}

#[test]
fn burn_from_account_without_record_fails() {
    let k = addr(1);
    let stranger = addr(99);
    let mut t = initialized(k);
    assert_eq!(t.burn(&signer(stranger), 1), Err(OpError::InsufficientFunds));
}

#[test]
fn mint_then_burn_round_trip_restores_zero() {
    let k = addr(1);
    let a = addr(10);
    let b = addr(20);
    let mut t = initialized(k);
    t.mint_to(&signer(k), b, 777).unwrap();
    let supply_before = t.total_supply();
    assert_eq!(t.balance_of(&a), 0);
    t.mint_to(&signer(k), a, 12345).unwrap();
    t.burn(&signer(a), 12345).unwrap();
    assert_eq!(t.balance_of(&a), 0);
    assert_eq!(t.total_supply(), supply_before);
    assert_eq!(t.balance_of(&b), 777);
}

#[test]
fn transfer_moves_amount_and_keeps_supply() {
    let k = addr(1);
    let a = addr(10);
    let b = addr(20);
    let mut t = initialized(k);
    t.mint_to(&signer(k), a, 1000).unwrap();
    t.transfer(&signer(a), b, 400).unwrap();
    assert_eq!(t.balance_of(&a), 600);
    assert_eq!(t.balance_of(&b), 400);
    assert_eq!(t.total_supply(), 1000);
}

#[test]
fn transfer_round_trip_restores_balances() {
    let k = addr(1);
    let a = addr(10);
    let b = addr(20);
    let mut t = initialized(k);
    t.mint_to(&signer(k), a, 1000).unwrap();
    t.mint_to(&signer(k), b, 50).unwrap();
    t.transfer(&signer(a), b, 333).unwrap();
    t.transfer(&signer(b), a, 333).unwrap();
    assert_eq!(t.balance_of(&a), 1000);
    assert_eq!(t.balance_of(&b), 50);
    assert_eq!(t.total_supply(), 1050);
}

#[test]
fn self_transfer_is_a_no_op() {
    let k = addr(1);
    let a = addr(10);
    let mut t = initialized(k);
    t.mint_to(&signer(k), a, 1000).unwrap();
    t.transfer(&signer(a), a, 600).unwrap();
    assert_eq!(t.balance_of(&a), 1000);
    assert_eq!(t.total_supply(), 1000);
    // The round trip of a self-transfer is likewise a no-op.
    t.transfer(&signer(a), a, 600).unwrap();
    assert_eq!(t.balance_of(&a), 1000);
}

#[test]
fn transfer_insufficient_funds_changes_nothing() {
    let k = addr(1);
    let a = addr(10);
    let b = addr(20);
    let mut t = initialized(k);
    t.mint_to(&signer(k), a, 100).unwrap();
    assert_eq!(t.transfer(&signer(a), b, 101), Err(OpError::InsufficientFunds));
    assert_eq!(t.balance_of(&a), 100);
    assert_eq!(t.balance_of(&b), 0);
}

#[test]
fn transfer_zero_amount_fails() {
    let k = addr(1);
    let a = addr(10);
    let b = addr(20);
    let mut t = initialized(k);
    t.mint_to(&signer(k), a, 100).unwrap();
    assert_eq!(t.transfer(&signer(a), b, 0), Err(OpError::ZeroAmount));
}

#[test]
fn transfer_requires_signature() {
    let k = addr(1);
    let a = addr(10);
    let b = addr(20);
    let mut t = initialized(k);
    t.mint_to(&signer(k), a, 100).unwrap();
    assert_eq!(t.transfer(&non_signer(a), b, 10), Err(OpError::Unauthorized));
}

#[test]
fn supply_equals_sum_of_balances_across_operations() {
    let k = addr(1);
    let holders = [addr(10), addr(20), addr(30)];
    let mut t = initialized(k);
    t.mint_to(&signer(k), holders[0], 500).unwrap();
    t.mint_to(&signer(k), holders[1], 300).unwrap();
    t.transfer(&signer(holders[0]), holders[2], 200).unwrap();
    t.burn(&signer(holders[1]), 100).unwrap();
    t.mint_to(&signer(k), holders[2], 50).unwrap();
    let sum: u64 = holders.iter().map(|h| t.balance_of(h)).sum();
    assert_eq!(t.total_supply(), sum);
    assert_eq!(t.total_supply(), 750);
}

#[test]
fn zero_balance_records_are_retained() {
    let k = addr(1);
    let a = addr(10);
    let mut t = initialized(k);
    t.mint_to(&signer(k), a, 10).unwrap();
    t.burn(&signer(a), 10).unwrap();
    assert_eq!(t.balance_of(&a), 0);
    assert_eq!(t.holder_count(), 1);
}

#[test]
fn concrete_scenario_init_mint_burn_transfer() {
    let k = addr(1);
    let a = addr(10);
    let b = addr(20);
    let mut t = SealanaToken::new(addr(1000), 9);
    t.init_mint(&signer(k)).unwrap();
    assert_eq!(t.total_supply(), 0);
    t.mint_to(&signer(k), a, 1_000_000_000).unwrap();
    assert_eq!(t.balance_of(&a), 1_000_000_000);
    assert_eq!(t.total_supply(), 1_000_000_000);
    t.burn(&signer(a), 400_000_000).unwrap();
    assert_eq!(t.balance_of(&a), 600_000_000);
    assert_eq!(t.total_supply(), 600_000_000);
    t.transfer(&signer(a), b, 600_000_000).unwrap();
    assert_eq!(t.balance_of(&a), 0);
    assert_eq!(t.balance_of(&b), 600_000_000);
    assert_eq!(t.total_supply(), 600_000_000);
}

#[test]
fn error_codes_are_distinct_and_stable() {
    let codes = [
        TokenError::Init(InitError::AlreadyInitialized).error_code(),
        TokenError::Init(InitError::MissingSigner).error_code(),
        TokenError::Op(OpError::Unauthorized).error_code(),
        TokenError::Op(OpError::Overflow).error_code(),
        TokenError::Op(OpError::ZeroAmount).error_code(),
        TokenError::Op(OpError::InsufficientFunds).error_code(),
        TokenError::NotInitialized.error_code(),
    ];
    assert_eq!(codes, [5, 6, 7, 8, 9, 10, 13]);
    for i in 0..codes.len() {
        for j in 0..codes.len() {
            if i != j {
                assert_ne!(codes[i], codes[j]);
            }
        }
    }
}
