//! Protocol constants: chunk geometry, field widths, opcodes and caps.
//!
//! The byte layout fixed here is re-derived independently by the settlement
//! contract and the prover; changing any width, order or opcode is a breaking
//! protocol change.

use vstd::prelude::*;

verus! {

/// Bytes per public-data chunk; every operation's footprint is a whole
/// number of chunks.
pub const CHUNK_BYTES: usize = 9;

/// Width of an account identifier field.
pub const ACCOUNT_ID_BYTES: usize = 4;

/// Width of a token identifier field.
pub const TOKEN_BYTES: usize = 2;

/// Width of a nonce field.
pub const NONCE_BYTES: usize = 4;

/// Width of an address field.
pub const ADDRESS_BYTES: usize = 20;

/// Width of a public-key hash field.
pub const PUBKEY_HASH_BYTES: usize = 20;

/// Width of an unpacked balance/amount field.
pub const BALANCE_BYTES: usize = 16;

/// Width of a packed fee field (exponent and mantissa).
pub const FEE_PACKED_BYTES: usize = 2;

/// Width of a packed amount field (exponent and mantissa).
pub const AMOUNT_PACKED_BYTES: usize = 5;

/// Width of a state-root hash.
pub const ROOT_HASH_BYTES: usize = 32;

/// Mantissa bound of a packed fee: 11 mantissa bits.
pub const FEE_MANTISSA_LIMIT: u128 = 2048;

/// Mantissa bound of a packed amount: 35 mantissa bits.
pub const AMOUNT_MANTISSA_LIMIT: u128 = 34359738368;

/// Exponent bound of packed fees and amounts: 5 exponent bits, base 10.
pub const PACKED_EXPONENT_LIMIT: u32 = 32;

// Opcodes.
pub const NOOP_OP_CODE: u8 = 0x00;

pub const DEPOSIT_OP_CODE: u8 = 0x01;

pub const TRANSFER_TO_NEW_OP_CODE: u8 = 0x02;

pub const WITHDRAW_OP_CODE: u8 = 0x03;

pub const TRANSFER_OP_CODE: u8 = 0x05;

pub const FULL_EXIT_OP_CODE: u8 = 0x06;

pub const CHANGE_PUBKEY_OP_CODE: u8 = 0x07;

// Chunk costs.
pub const NOOP_CHUNKS: usize = 1;

pub const DEPOSIT_CHUNKS: usize = 6;

pub const TRANSFER_TO_NEW_CHUNKS: usize = 6;

pub const WITHDRAW_CHUNKS: usize = 6;

pub const TRANSFER_CHUNKS: usize = 2;

pub const FULL_EXIT_CHUNKS: usize = 6;

pub const CHANGE_PUBKEY_CHUNKS: usize = 6;

/// Fixed-width withdrawal record: recipient, token, amount.
pub const WITHDRAWAL_RECORD_BYTES: usize = 38;

} // verus!
