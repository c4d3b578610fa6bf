//! The byte layouts at the host boundary: the instruction wire format
//! (opcode byte, then for mint and burn an 8-byte little-endian amount)
//! and the fixed-width layouts of the mint and balance records, so that
//! any two implementations agree on storage bytes. Decoding is total and
//! side-effect-free.

use vstd::prelude::*;
use vstd::bytes::spec_u64_to_le_bytes;
use vstd::bytes::spec_u64_from_le_bytes;
use vstd::bytes::lemma_auto_spec_u64_to_from_le_bytes;
use vstd::bytes::u64_to_le_bytes;
use vstd::bytes::u64_from_le_bytes;
use vstd::slice::slice_subrange;
use crate::records::Address;
use crate::records::MintRecord;
use crate::records::BalanceRecord;
use crate::errors::DecodeError;

verus! {

/// A decoded instruction: the three operations reachable from the wire.
#[derive(Clone, Copy, PartialEq, Eq, Structural, Debug)]
pub enum TokenInstruction {
    /// Opcode 0: create the mint record.
    InitMint,
    /// Opcode 1: mint `amount` tokens to the destination account.
    MintTo { amount: u64 },
    /// Opcode 2: burn `amount` tokens from the source account.
    Burn { amount: u64 },
}

/// The wire meaning of an instruction buffer: byte 0 is the opcode
/// (0 = init, 1 = mint, 2 = burn); opcodes 1 and 2 carry an 8-byte
/// little-endian amount, so the buffer length must be exactly 1 or 9.
pub open spec fn spec_decode_instruction(s: Seq<u8>) -> Result<TokenInstruction, DecodeError> {
    if s.len() == 0 {
        Err(DecodeError::InvalidInstructionData)
    } else if s[0] == 0 {
        if s.len() == 1 {
            Ok(TokenInstruction::InitMint)
        } else {
            Err(DecodeError::InvalidInstructionData)
        }
    } else if s[0] == 1 {
        if s.len() == 9 {
            Ok(TokenInstruction::MintTo { amount: spec_u64_from_le_bytes(s.subrange(1, 9)) })
        } else {
            Err(DecodeError::InvalidInstructionData)
        }
    } else if s[0] == 2 {
        if s.len() == 9 {
            Ok(TokenInstruction::Burn { amount: spec_u64_from_le_bytes(s.subrange(1, 9)) })
        } else {
            Err(DecodeError::InvalidInstructionData)
        }
    } else {
        Err(DecodeError::InvalidInstruction)
    }
}

/// The canonical wire bytes of an instruction.
pub open spec fn spec_encode_instruction(ins: TokenInstruction) -> Seq<u8> {
    match ins {
        TokenInstruction::InitMint => seq![0u8],
        TokenInstruction::MintTo { amount } => seq![1u8] + spec_u64_to_le_bytes(amount),
        TokenInstruction::Burn { amount } => seq![2u8] + spec_u64_to_le_bytes(amount),
    }
}

/// Decodes an instruction buffer; total, pure, and exact: every buffer
/// either decodes to one instruction or to one of the two decode errors.
pub fn decode_instruction(data: &[u8]) -> (r: Result<TokenInstruction, DecodeError>)
    ensures
        r == spec_decode_instruction(data@),
{
    if data.len() == 0 {
        return Err(DecodeError::InvalidInstructionData);
    }
    let opcode = data[0];
    if opcode == 0 {
        if data.len() == 1 {
            Ok(TokenInstruction::InitMint)
        } else {
            Err(DecodeError::InvalidInstructionData)
        }
    } else if opcode == 1 {
        if data.len() == 9 {
            let amount = u64_from_le_bytes(slice_subrange(data, 1, 9));
            Ok(TokenInstruction::MintTo { amount })
        } else {
            Err(DecodeError::InvalidInstructionData)
        }
    } else if opcode == 2 {
        if data.len() == 9 {
            let amount = u64_from_le_bytes(slice_subrange(data, 1, 9));
            Ok(TokenInstruction::Burn { amount })
        } else {
            Err(DecodeError::InvalidInstructionData)
        }
    } else {
        Err(DecodeError::InvalidInstruction)
    }
}

/// Encodes an instruction to its canonical wire bytes.
pub fn encode_instruction(ins: &TokenInstruction) -> (r: Vec<u8>)
    ensures
        r@ == spec_encode_instruction(*ins),
{
    let mut v: Vec<u8> = Vec::new();
    match *ins {
        TokenInstruction::InitMint => {
            v.push(0);
            proof {
                assert(v@ =~= spec_encode_instruction(*ins));
            }
        },
        TokenInstruction::MintTo { amount } => {
            v.push(1);
            let mut tail = u64_to_le_bytes(amount);
            v.append(&mut tail);
            proof {
                assert(v@ =~= spec_encode_instruction(*ins));
            }
        },
        TokenInstruction::Burn { amount } => {
            v.push(2);
            let mut tail = u64_to_le_bytes(amount);
            v.append(&mut tail);
            proof {
                assert(v@ =~= spec_encode_instruction(*ins));
            }
        },
    }
    v
}

/// Law: wire round trip. Decoding the canonical encoding of any
/// instruction yields that instruction.
pub proof fn lemma_instruction_round_trip(ins: TokenInstruction)
    ensures
        spec_decode_instruction(spec_encode_instruction(ins)) == Ok::<
            TokenInstruction,
            DecodeError,
        >(ins),
{
    lemma_auto_spec_u64_to_from_le_bytes();
    let s = spec_encode_instruction(ins);
    match ins {
        TokenInstruction::InitMint => {},
        TokenInstruction::MintTo { amount } => {
            assert(s.subrange(1, 9) =~= spec_u64_to_le_bytes(amount));
        },
        TokenInstruction::Burn { amount } => {
            assert(s.subrange(1, 9) =~= spec_u64_to_le_bytes(amount));
        },
    }
}

/// The canonical 32 bytes of an address: its four words, little-endian,
/// in order.
pub open spec fn spec_address_bytes(a: Address) -> Seq<u8> {
    spec_u64_to_le_bytes(a.w0) + spec_u64_to_le_bytes(a.w1) + spec_u64_to_le_bytes(a.w2)
        + spec_u64_to_le_bytes(a.w3)
}

/// The address stored in 32 bytes.
pub open spec fn spec_address_from_bytes(s: Seq<u8>) -> Address
    recommends
        s.len() == 32,
{
    Address {
        w0: spec_u64_from_le_bytes(s.subrange(0, 8)),
        w1: spec_u64_from_le_bytes(s.subrange(8, 16)),
        w2: spec_u64_from_le_bytes(s.subrange(16, 24)),
        w3: spec_u64_from_le_bytes(s.subrange(24, 32)),
    }
}

/// Law: address byte round trip.
pub proof fn lemma_address_round_trip(a: Address)
    ensures
        spec_address_bytes(a).len() == 32,
        spec_address_from_bytes(spec_address_bytes(a)) == a,
{
    lemma_auto_spec_u64_to_from_le_bytes();
    let s = spec_address_bytes(a);
    assert(s.subrange(0, 8) =~= spec_u64_to_le_bytes(a.w0));
    assert(s.subrange(8, 16) =~= spec_u64_to_le_bytes(a.w1));
    assert(s.subrange(16, 24) =~= spec_u64_to_le_bytes(a.w2));
    assert(s.subrange(24, 32) =~= spec_u64_to_le_bytes(a.w3));
}

/// Serializes an address to its canonical 32 bytes.
pub fn serialize_address(a: &Address) -> (r: Vec<u8>)
    ensures
        r@ == spec_address_bytes(*a),
        r@.len() == 32,
{
    let mut v = u64_to_le_bytes(a.w0);
    let mut v1 = u64_to_le_bytes(a.w1);
    let mut v2 = u64_to_le_bytes(a.w2);
    let mut v3 = u64_to_le_bytes(a.w3);
    v.append(&mut v1);
    v.append(&mut v2);
    v.append(&mut v3);
    v
}

/// Reads an address from exactly 32 bytes.
pub fn deserialize_address(s: &[u8]) -> (r: Option<Address>)
    ensures
        match r {
            Some(a) => s@.len() == 32 && a == spec_address_from_bytes(s@),
            None => s@.len() != 32,
        },
{
    if s.len() != 32 {
        return None;
    }
    let w0 = u64_from_le_bytes(slice_subrange(s, 0, 8));
    let w1 = u64_from_le_bytes(slice_subrange(s, 8, 16));
    let w2 = u64_from_le_bytes(slice_subrange(s, 16, 24));
    let w3 = u64_from_le_bytes(slice_subrange(s, 24, 32));
    Some(Address { w0, w1, w2, w3 })
}

/// The fixed 73-byte layout of the mint record: mint address (32),
/// authority (32), decimals (1), total supply (8, little-endian).
pub open spec fn spec_mint_record_bytes(m: MintRecord) -> Seq<u8> {
    spec_address_bytes(m.mint_address) + spec_address_bytes(m.authority) + seq![m.decimals]
        + spec_u64_to_le_bytes(m.total_supply)
}

/// The mint record stored in 73 bytes.
pub open spec fn spec_mint_record_from_bytes(s: Seq<u8>) -> MintRecord
    recommends
        s.len() == 73,
{
    MintRecord {
        mint_address: spec_address_from_bytes(s.subrange(0, 32)),
        authority: spec_address_from_bytes(s.subrange(32, 64)),
        decimals: s[64],
        total_supply: spec_u64_from_le_bytes(s.subrange(65, 73)),
    }
}

/// Law: mint record byte round trip — the layout loses nothing.
pub proof fn lemma_mint_record_round_trip(m: MintRecord)
    ensures
        spec_mint_record_bytes(m).len() == 73,
        spec_mint_record_from_bytes(spec_mint_record_bytes(m)) == m,
{
    lemma_auto_spec_u64_to_from_le_bytes();
    lemma_address_round_trip(m.mint_address);
    lemma_address_round_trip(m.authority);
    let s = spec_mint_record_bytes(m);
    assert(s.subrange(0, 32) =~= spec_address_bytes(m.mint_address));
    assert(s.subrange(32, 64) =~= spec_address_bytes(m.authority));
    assert(s[64] == m.decimals);
    assert(s.subrange(65, 73) =~= spec_u64_to_le_bytes(m.total_supply));
}

/// Serializes a mint record to its canonical 73 bytes.
pub fn serialize_mint_record(m: &MintRecord) -> (r: Vec<u8>)
    ensures
        r@ == spec_mint_record_bytes(*m),
        r@.len() == 73,
{
    let mut v = serialize_address(&m.mint_address);
    let mut auth = serialize_address(&m.authority);
    v.append(&mut auth);
    v.push(m.decimals);
    let mut supply = u64_to_le_bytes(m.total_supply);
    v.append(&mut supply);
    proof {
        assert(v@ =~= spec_mint_record_bytes(*m));
    }
    v
}

/// Reads a mint record from exactly 73 bytes.
pub fn deserialize_mint_record(s: &[u8]) -> (r: Option<MintRecord>)
    ensures
        match r {
            Some(m) => s@.len() == 73 && m == spec_mint_record_from_bytes(s@),
            None => s@.len() != 73,
        },
{
    if s.len() != 73 {
        return None;
    }
    let mint_address = match deserialize_address(slice_subrange(s, 0, 32)) {
        Some(a) => a,
        None => {
            return None;
        },
    };
    let authority = match deserialize_address(slice_subrange(s, 32, 64)) {
        Some(a) => a,
        None => {
            return None;
        },
    };
    let decimals = s[64];
    let total_supply = u64_from_le_bytes(slice_subrange(s, 65, 73));
    Some(MintRecord { mint_address, authority, decimals, total_supply })
}

/// The fixed 72-byte layout of a balance record: owner address (32),
/// mint address (32), amount (8, little-endian).
pub open spec fn spec_balance_record_bytes(b: BalanceRecord) -> Seq<u8> {
    spec_address_bytes(b.owner_address) + spec_address_bytes(b.mint_address)
        + spec_u64_to_le_bytes(b.amount)
}

/// The balance record stored in 72 bytes.
pub open spec fn spec_balance_record_from_bytes(s: Seq<u8>) -> BalanceRecord
    recommends
        s.len() == 72,
{
    BalanceRecord {
        owner_address: spec_address_from_bytes(s.subrange(0, 32)),
        mint_address: spec_address_from_bytes(s.subrange(32, 64)),
        amount: spec_u64_from_le_bytes(s.subrange(64, 72)),
    }
}

/// Law: balance record byte round trip — the layout loses nothing.
pub proof fn lemma_balance_record_round_trip(b: BalanceRecord)
    ensures
        spec_balance_record_bytes(b).len() == 72,
        spec_balance_record_from_bytes(spec_balance_record_bytes(b)) == b,
{
    lemma_auto_spec_u64_to_from_le_bytes();
    lemma_address_round_trip(b.owner_address);
    lemma_address_round_trip(b.mint_address);
    let s = spec_balance_record_bytes(b);
    assert(s.subrange(0, 32) =~= spec_address_bytes(b.owner_address));
    assert(s.subrange(32, 64) =~= spec_address_bytes(b.mint_address));
    assert(s.subrange(64, 72) =~= spec_u64_to_le_bytes(b.amount));
}

/// Serializes a balance record to its canonical 72 bytes.
pub fn serialize_balance_record(b: &BalanceRecord) -> (r: Vec<u8>)
    ensures
        r@ == spec_balance_record_bytes(*b),
        r@.len() == 72,
{
    let mut v = serialize_address(&b.owner_address);
    let mut mint = serialize_address(&b.mint_address);
    v.append(&mut mint);
    let mut amount = u64_to_le_bytes(b.amount);
    v.append(&mut amount);
    proof {
        assert(v@ =~= spec_balance_record_bytes(*b));
    }
    v
}

/// Reads a balance record from exactly 72 bytes.
pub fn deserialize_balance_record(s: &[u8]) -> (r: Option<BalanceRecord>)
    ensures
        match r {
            Some(b) => s@.len() == 72 && b == spec_balance_record_from_bytes(s@),
            None => s@.len() != 72,
        },
{
    if s.len() != 72 {
        return None;
    }
    let owner_address = match deserialize_address(slice_subrange(s, 0, 32)) {
        Some(a) => a,
        None => {
            return None;
        },
    };
    let mint_address = match deserialize_address(slice_subrange(s, 32, 64)) {
        Some(a) => a,
        None => {
            return None;
        },
    };
    let amount = u64_from_le_bytes(slice_subrange(s, 64, 72));
    Some(BalanceRecord { owner_address, mint_address, amount })
}

} // verus!
