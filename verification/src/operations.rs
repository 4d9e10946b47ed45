//! The per-kind fixed-width binary operation codec.
//!
//! Every operation kind declares an opcode byte, a fixed chunk cost, an
//! encoding of exactly `chunk cost * CHUNK_BYTES` bytes, and a decoder
//! restricted to the fields present in the on-chain representation. Fields
//! never committed on-chain (addresses of a transfer's parties, signatures,
//! nonces of transfers and withdrawals) are zero after decoding: that is by
//! design, not data loss.
//!
//! Layouts, in byte offsets from the opcode:
//! - deposit: account id 1..5, token 5..7, amount 7..23, owner 23..43;
//! - transfer-to-new: from id 1..5, token 5..7, packed amount 7..12,
//!   owner 12..32, to id 32..36, packed fee 36..38;
//! - withdraw: account id 1..5, token 5..7, amount 7..23, packed fee 23..25,
//!   recipient 25..45;
//! - transfer: from id 1..5, token 5..7, to id 7..11, packed amount 11..16,
//!   packed fee 16..18;
//! - full exit: account id 1..5, owner 5..25, token 25..27, amount 27..43;
//! - change pubkey: account id 1..5, key hash 5..25, owner 25..45,
//!   nonce 45..49, fee token 49..51, packed fee 51..53.

use vstd::prelude::*;
use crate::bytes::{
    be_bytes, be_slice_to_u128, be_value, lemma_be_bytes_len, lemma_be_value_bound,
    lemma_be_value_of_be_bytes, lemma_pow256_16, lemma_pow256_small, nat_to_be_vec, push_bytes,
    push_zeros, slice_to_vec, zero_vec,
};
pub use crate::bytes::{zero_pad, zero_seq};
use crate::packing::{
    lemma_pack_value_exact, lemma_packed_amount_round_trip, lemma_packed_fee_round_trip,
    pack_fee_amount, pack_token_amount, packable, packed_amount_bytes, packed_fee_bytes,
    unpack_fee_amount, unpack_token_amount, unpacked_amount_value, unpacked_fee_value,
};
use crate::params::{
    ACCOUNT_ID_BYTES, AMOUNT_MANTISSA_LIMIT, BALANCE_BYTES, CHANGE_PUBKEY_CHUNKS,
    CHANGE_PUBKEY_OP_CODE, CHUNK_BYTES, DEPOSIT_CHUNKS, DEPOSIT_OP_CODE, FEE_MANTISSA_LIMIT,
    FULL_EXIT_CHUNKS, FULL_EXIT_OP_CODE, NONCE_BYTES, NOOP_CHUNKS, NOOP_OP_CODE, TOKEN_BYTES,
    TRANSFER_CHUNKS, TRANSFER_OP_CODE, TRANSFER_TO_NEW_CHUNKS, TRANSFER_TO_NEW_OP_CODE,
    WITHDRAW_CHUNKS, WITHDRAW_OP_CODE,
};
use crate::tx::{
    AccountId, ChangePubKey, ChangePubKeyType, Deposit, FullExit, Transfer, Withdraw,
    change_pubkey_wf, deposit_wf, full_exit_wf, transfer_wf, withdraw_wf,
};

verus! {

/// Why a byte string failed to decode.
#[derive(Clone, Debug, PartialEq, Eq)]
pub enum CodecError {
    /// The buffer is shorter than the operation's on-chain body.
    DataTooShort,
    /// The opcode byte names no operation kind.
    UnknownOpCode,
    /// A packed amount field encodes a value above the amount type's range.
    AmountOverflow,
}


// ---------------------------------------------------------------------------
// Deposit
// ---------------------------------------------------------------------------

/// A deposit applied to the ledger: the priority payload plus the account
/// the funds were credited to.
#[derive(Clone, Debug, PartialEq)]
pub struct DepositOp {
    pub priority_op: Deposit,
    pub account_id: AccountId,
}

pub open spec fn deposit_op_wf(op: DepositOp) -> bool {
    deposit_wf(op.priority_op)
}

pub open spec fn deposit_pubdata(op: DepositOp) -> Seq<u8> {
    zero_pad(
        seq![DEPOSIT_OP_CODE] + be_bytes(op.account_id as nat, ACCOUNT_ID_BYTES as nat)
            + be_bytes(op.priority_op.token as nat, TOKEN_BYTES as nat)
            + be_bytes(op.priority_op.amount as nat, BALANCE_BYTES as nat) + op.priority_op.to@,
        (DEPOSIT_CHUNKS * CHUNK_BYTES) as nat,
    )
}

impl DepositOp {
    pub fn get_public_data(&self) -> (r: Vec<u8>)
        requires
            deposit_op_wf(*self),
        ensures
            r@ == deposit_pubdata(*self),
            r@.len() == DEPOSIT_CHUNKS * CHUNK_BYTES,
    {
        proof {
            lemma_be_bytes_len(self.account_id as nat, ACCOUNT_ID_BYTES as nat);
            lemma_be_bytes_len(self.priority_op.token as nat, TOKEN_BYTES as nat);
            lemma_be_bytes_len(self.priority_op.amount as nat, BALANCE_BYTES as nat);
        }
        let mut data: Vec<u8> = Vec::new();
        data.push(DEPOSIT_OP_CODE);
        let piece = nat_to_be_vec(self.account_id as u128, ACCOUNT_ID_BYTES);
        push_bytes(&mut data, piece.as_slice());
        let piece = nat_to_be_vec(self.priority_op.token as u128, TOKEN_BYTES);
        push_bytes(&mut data, piece.as_slice());
        let piece = nat_to_be_vec(self.priority_op.amount, BALANCE_BYTES);
        push_bytes(&mut data, piece.as_slice());
        push_bytes(&mut data, self.priority_op.to.as_slice());
        let pad = DEPOSIT_CHUNKS * CHUNK_BYTES - data.len();
        push_zeros(&mut data, pad);
        assert(data@ =~= deposit_pubdata(*self));
        data
    }

    /// Decodes the on-chain fields of a deposit; the depositing L1 address is
    /// not committed and is zero after decoding.
    pub fn from_public_data(bytes: &[u8]) -> (r: Result<DepositOp, CodecError>)
        ensures
            r is Ok <==> bytes@.len() >= 43,
            r matches Ok(op) ==> ({
                &&& op.account_id as nat == be_value(bytes@.subrange(1, 5))
                &&& op.priority_op.token as nat == be_value(bytes@.subrange(5, 7))
                &&& op.priority_op.amount as nat == be_value(bytes@.subrange(7, 23))
                &&& op.priority_op.to@ == bytes@.subrange(23, 43)
                &&& op.priority_op.from@ == zero_seq(20)
                &&& deposit_op_wf(op)
            }),
    {
        if bytes.len() < 43 {
            return Err(CodecError::DataTooShort);
        }
        proof {
            lemma_be_value_bound(bytes@.subrange(1, 5));
            lemma_be_value_bound(bytes@.subrange(5, 7));
            lemma_be_value_bound(bytes@.subrange(7, 23));
            lemma_pow256_small();
            lemma_pow256_16();
        }
        let account_id = be_slice_to_u128(&bytes[1..5]) as u32;
        let token = be_slice_to_u128(&bytes[5..7]) as u16;
        let amount = be_slice_to_u128(&bytes[7..23]);
        let to = slice_to_vec(&bytes[23..43]);
        Ok(
            DepositOp {
                priority_op: Deposit { from: zero_vec(20), token, amount, to },
                account_id,
            },
        )
    }
}

/// Reading back an encoded deposit restores every on-chain field.
pub proof fn lemma_deposit_round_trip(op: DepositOp)
    requires
        deposit_op_wf(op),
    ensures
        ({
            let s = deposit_pubdata(op);
            &&& s.len() == DEPOSIT_CHUNKS * CHUNK_BYTES
            &&& s[0] == DEPOSIT_OP_CODE
            &&& be_value(s.subrange(1, 5)) == op.account_id
            &&& be_value(s.subrange(5, 7)) == op.priority_op.token
            &&& be_value(s.subrange(7, 23)) == op.priority_op.amount
            &&& s.subrange(23, 43) == op.priority_op.to@
        }),
{
    let s = deposit_pubdata(op);
    lemma_be_bytes_len(op.account_id as nat, ACCOUNT_ID_BYTES as nat);
    lemma_be_bytes_len(op.priority_op.token as nat, TOKEN_BYTES as nat);
    lemma_be_bytes_len(op.priority_op.amount as nat, BALANCE_BYTES as nat);
    assert(s.subrange(1, 5) =~= be_bytes(op.account_id as nat, ACCOUNT_ID_BYTES as nat));
    assert(s.subrange(5, 7) =~= be_bytes(op.priority_op.token as nat, TOKEN_BYTES as nat));
    assert(s.subrange(7, 23) =~= be_bytes(op.priority_op.amount as nat, BALANCE_BYTES as nat));
    assert(s.subrange(23, 43) =~= op.priority_op.to@);
    lemma_pow256_small();
    lemma_pow256_16();
    lemma_be_value_of_be_bytes(op.account_id as nat, ACCOUNT_ID_BYTES as nat);
    lemma_be_value_of_be_bytes(op.priority_op.token as nat, TOKEN_BYTES as nat);
    lemma_be_value_of_be_bytes(op.priority_op.amount as nat, BALANCE_BYTES as nat);
}

// ---------------------------------------------------------------------------
// Transfer (both parties already have accounts)
// ---------------------------------------------------------------------------

/// A transfer between two existing accounts, with the resolved identifiers.
#[derive(Clone, Debug, PartialEq)]
pub struct TransferOp {
    pub tx: Transfer,
    pub from: AccountId,
    pub to: AccountId,
}

pub open spec fn transfer_op_wf(op: TransferOp) -> bool {
    transfer_wf(op.tx)
}

pub open spec fn transfer_pubdata(op: TransferOp) -> Seq<u8> {
    seq![TRANSFER_OP_CODE] + be_bytes(op.from as nat, ACCOUNT_ID_BYTES as nat)
        + be_bytes(op.tx.token as nat, TOKEN_BYTES as nat)
        + be_bytes(op.to as nat, ACCOUNT_ID_BYTES as nat) + packed_amount_bytes(op.tx.amount as nat)
        + packed_fee_bytes(op.tx.fee as nat)
}

impl TransferOp {
    pub fn get_public_data(&self) -> (r: Vec<u8>)
        requires
            transfer_op_wf(*self),
        ensures
            r@ == transfer_pubdata(*self),
            r@.len() == TRANSFER_CHUNKS * CHUNK_BYTES,
    {
        proof {
            lemma_be_bytes_len(self.from as nat, ACCOUNT_ID_BYTES as nat);
            lemma_be_bytes_len(self.tx.token as nat, TOKEN_BYTES as nat);
            lemma_be_bytes_len(self.to as nat, ACCOUNT_ID_BYTES as nat);
        }
        let mut data: Vec<u8> = Vec::new();
        data.push(TRANSFER_OP_CODE);
        let piece = nat_to_be_vec(self.from as u128, ACCOUNT_ID_BYTES);
        push_bytes(&mut data, piece.as_slice());
        let piece = nat_to_be_vec(self.tx.token as u128, TOKEN_BYTES);
        push_bytes(&mut data, piece.as_slice());
        let piece = nat_to_be_vec(self.to as u128, ACCOUNT_ID_BYTES);
        push_bytes(&mut data, piece.as_slice());
        let piece = pack_token_amount(self.tx.amount);
        push_bytes(&mut data, piece.as_slice());
        let piece = pack_fee_amount(self.tx.fee);
        push_bytes(&mut data, piece.as_slice());
        assert(data@ =~= transfer_pubdata(*self));
        data
    }

    /// Decodes the on-chain fields of a transfer; party addresses, nonce and
    /// signature are not committed and are zero after decoding.
    pub fn from_public_data(bytes: &[u8]) -> (r: Result<TransferOp, CodecError>)
        ensures
            r is Ok <==> (bytes@.len() >= 18 && unpacked_amount_value(bytes@.subrange(11, 16))
                <= u128::MAX),
            bytes@.len() < 18 ==> r == Err::<TransferOp, CodecError>(CodecError::DataTooShort),
            bytes@.len() >= 18 && unpacked_amount_value(bytes@.subrange(11, 16)) > u128::MAX ==> r
                == Err::<TransferOp, CodecError>(CodecError::AmountOverflow),
            r matches Ok(op) ==> ({
                &&& op.from as nat == be_value(bytes@.subrange(1, 5))
                &&& op.tx.token as nat == be_value(bytes@.subrange(5, 7))
                &&& op.to as nat == be_value(bytes@.subrange(7, 11))
                &&& op.tx.amount as nat == unpacked_amount_value(bytes@.subrange(11, 16))
                &&& op.tx.fee as nat == unpacked_fee_value(bytes@.subrange(16, 18))
                &&& op.tx.from@ == zero_seq(20)
                &&& op.tx.to@ == zero_seq(20)
                &&& op.tx.nonce == 0
            }),
    {
        if bytes.len() < 18 {
            return Err(CodecError::DataTooShort);
        }
        proof {
            lemma_be_value_bound(bytes@.subrange(1, 5));
            lemma_be_value_bound(bytes@.subrange(5, 7));
            lemma_be_value_bound(bytes@.subrange(7, 11));
            lemma_pow256_small();
        }
        let from = be_slice_to_u128(&bytes[1..5]) as u32;
        let token = be_slice_to_u128(&bytes[5..7]) as u16;
        let to = be_slice_to_u128(&bytes[7..11]) as u32;
        let amount = match unpack_token_amount(&bytes[11..16]) {
            Some(a) => a,
            None => {
                return Err(CodecError::AmountOverflow);
            },
        };
        let fee = match unpack_fee_amount(&bytes[16..18]) {
            Some(f) => f,
            None => {
                return Err(CodecError::DataTooShort);
            },
        };
        Ok(
            TransferOp {
                tx: Transfer {
                    from: zero_vec(20),
                    to: zero_vec(20),
                    token,
                    amount,
                    fee,
                    nonce: 0,
                    signer_pub_key_hash: zero_vec(20),
                },
                from,
                to,
            },
        )
    }
}

/// Reading back an encoded transfer restores every on-chain field; the
/// packed amount and fee come back exactly because a well-formed transfer
/// holds packable values.
pub proof fn lemma_transfer_round_trip(op: TransferOp)
    requires
        transfer_op_wf(op),
    ensures
        ({
            let s = transfer_pubdata(op);
            &&& s.len() == TRANSFER_CHUNKS * CHUNK_BYTES
            &&& s[0] == TRANSFER_OP_CODE
            &&& be_value(s.subrange(1, 5)) == op.from
            &&& be_value(s.subrange(5, 7)) == op.tx.token
            &&& be_value(s.subrange(7, 11)) == op.to
            &&& unpacked_amount_value(s.subrange(11, 16)) == op.tx.amount
            &&& unpacked_fee_value(s.subrange(16, 18)) == op.tx.fee
        }),
{
    let s = transfer_pubdata(op);
    lemma_be_bytes_len(op.from as nat, ACCOUNT_ID_BYTES as nat);
    lemma_be_bytes_len(op.tx.token as nat, TOKEN_BYTES as nat);
    lemma_be_bytes_len(op.to as nat, ACCOUNT_ID_BYTES as nat);
    assert(packed_amount_bytes(op.tx.amount as nat).len() == 5) by {
        lemma_be_bytes_len(
            pack_split_bits_amount(op.tx.amount as nat),
            crate::params::AMOUNT_PACKED_BYTES as nat,
        );
    }
    assert(packed_fee_bytes(op.tx.fee as nat).len() == 2) by {
        lemma_be_bytes_len(
            pack_split_bits_fee(op.tx.fee as nat),
            crate::params::FEE_PACKED_BYTES as nat,
        );
    }
    assert(s.subrange(1, 5) =~= be_bytes(op.from as nat, ACCOUNT_ID_BYTES as nat));
    assert(s.subrange(5, 7) =~= be_bytes(op.tx.token as nat, TOKEN_BYTES as nat));
    assert(s.subrange(7, 11) =~= be_bytes(op.to as nat, ACCOUNT_ID_BYTES as nat));
    assert(s.subrange(11, 16) =~= packed_amount_bytes(op.tx.amount as nat));
    assert(s.subrange(16, 18) =~= packed_fee_bytes(op.tx.fee as nat));
    lemma_pow256_small();
    lemma_be_value_of_be_bytes(op.from as nat, ACCOUNT_ID_BYTES as nat);
    lemma_be_value_of_be_bytes(op.tx.token as nat, TOKEN_BYTES as nat);
    lemma_be_value_of_be_bytes(op.to as nat, ACCOUNT_ID_BYTES as nat);
    lemma_packed_amount_round_trip(op.tx.amount as nat);
    lemma_pack_value_exact(op.tx.amount as nat, AMOUNT_MANTISSA_LIMIT as nat);
    lemma_packed_fee_round_trip(op.tx.fee as nat);
    lemma_pack_value_exact(op.tx.fee as nat, FEE_MANTISSA_LIMIT as nat);
}

// ---------------------------------------------------------------------------
// Transfer to a fresh account
// ---------------------------------------------------------------------------

/// A transfer whose recipient address had no account: the recipient account
/// is created and its fresh identifier committed on-chain.
#[derive(Clone, Debug, PartialEq)]
pub struct TransferToNewOp {
    pub tx: Transfer,
    pub from: AccountId,
    pub to: AccountId,
}

pub open spec fn transfer_to_new_op_wf(op: TransferToNewOp) -> bool {
    transfer_wf(op.tx)
}

pub open spec fn transfer_to_new_pubdata(op: TransferToNewOp) -> Seq<u8> {
    zero_pad(
        seq![TRANSFER_TO_NEW_OP_CODE] + be_bytes(op.from as nat, ACCOUNT_ID_BYTES as nat)
            + be_bytes(op.tx.token as nat, TOKEN_BYTES as nat) + packed_amount_bytes(
            op.tx.amount as nat,
        ) + op.tx.to@ + be_bytes(op.to as nat, ACCOUNT_ID_BYTES as nat) + packed_fee_bytes(
            op.tx.fee as nat,
        ),
        (TRANSFER_TO_NEW_CHUNKS * CHUNK_BYTES) as nat,
    )
}

impl TransferToNewOp {
    pub fn get_public_data(&self) -> (r: Vec<u8>)
        requires
            transfer_to_new_op_wf(*self),
        ensures
            r@ == transfer_to_new_pubdata(*self),
            r@.len() == TRANSFER_TO_NEW_CHUNKS * CHUNK_BYTES,
    {
        proof {
            lemma_be_bytes_len(self.from as nat, ACCOUNT_ID_BYTES as nat);
            lemma_be_bytes_len(self.tx.token as nat, TOKEN_BYTES as nat);
            lemma_be_bytes_len(self.to as nat, ACCOUNT_ID_BYTES as nat);
        }
        let mut data: Vec<u8> = Vec::new();
        data.push(TRANSFER_TO_NEW_OP_CODE);
        let piece = nat_to_be_vec(self.from as u128, ACCOUNT_ID_BYTES);
        push_bytes(&mut data, piece.as_slice());
        let piece = nat_to_be_vec(self.tx.token as u128, TOKEN_BYTES);
        push_bytes(&mut data, piece.as_slice());
        let piece = pack_token_amount(self.tx.amount);
        push_bytes(&mut data, piece.as_slice());
        push_bytes(&mut data, self.tx.to.as_slice());
        let piece = nat_to_be_vec(self.to as u128, ACCOUNT_ID_BYTES);
        push_bytes(&mut data, piece.as_slice());
        let piece = pack_fee_amount(self.tx.fee);
        push_bytes(&mut data, piece.as_slice());
        let pad = TRANSFER_TO_NEW_CHUNKS * CHUNK_BYTES - data.len();
        push_zeros(&mut data, pad);
        assert(data@ =~= transfer_to_new_pubdata(*self));
        data
    }

    /// Decodes the on-chain fields; the sender's address, nonce and
    /// signature are not committed and are zero after decoding.
    pub fn from_public_data(bytes: &[u8]) -> (r: Result<TransferToNewOp, CodecError>)
        ensures
            r is Ok <==> (bytes@.len() >= 38 && unpacked_amount_value(bytes@.subrange(7, 12))
                <= u128::MAX),
            bytes@.len() < 38 ==> r == Err::<TransferToNewOp, CodecError>(CodecError::DataTooShort),
            bytes@.len() >= 38 && unpacked_amount_value(bytes@.subrange(7, 12)) > u128::MAX ==> r
                == Err::<TransferToNewOp, CodecError>(CodecError::AmountOverflow),
            r matches Ok(op) ==> ({
                &&& op.from as nat == be_value(bytes@.subrange(1, 5))
                &&& op.tx.token as nat == be_value(bytes@.subrange(5, 7))
                &&& op.tx.amount as nat == unpacked_amount_value(bytes@.subrange(7, 12))
                &&& op.tx.to@ == bytes@.subrange(12, 32)
                &&& op.to as nat == be_value(bytes@.subrange(32, 36))
                &&& op.tx.fee as nat == unpacked_fee_value(bytes@.subrange(36, 38))
                &&& op.tx.from@ == zero_seq(20)
                &&& op.tx.nonce == 0
            }),
    {
        if bytes.len() < 38 {
            return Err(CodecError::DataTooShort);
        }
        proof {
            lemma_be_value_bound(bytes@.subrange(1, 5));
            lemma_be_value_bound(bytes@.subrange(5, 7));
            lemma_be_value_bound(bytes@.subrange(32, 36));
            lemma_pow256_small();
        }
        let from = be_slice_to_u128(&bytes[1..5]) as u32;
        let token = be_slice_to_u128(&bytes[5..7]) as u16;
        let amount = match unpack_token_amount(&bytes[7..12]) {
            Some(a) => a,
            None => {
                return Err(CodecError::AmountOverflow);
            },
        };
        let to_address = slice_to_vec(&bytes[12..32]);
        let to = be_slice_to_u128(&bytes[32..36]) as u32;
        let fee = match unpack_fee_amount(&bytes[36..38]) {
            Some(f) => f,
            None => {
                return Err(CodecError::DataTooShort);
            },
        };
        Ok(
            TransferToNewOp {
                tx: Transfer {
                    from: zero_vec(20),
                    to: to_address,
                    token,
                    amount,
                    fee,
                    nonce: 0,
                    signer_pub_key_hash: zero_vec(20),
                },
                from,
                to,
            },
        )
    }
}

/// Reading back an encoded transfer-to-new restores every on-chain field.
pub proof fn lemma_transfer_to_new_round_trip(op: TransferToNewOp)
    requires
        transfer_to_new_op_wf(op),
    ensures
        ({
            let s = transfer_to_new_pubdata(op);
            &&& s.len() == TRANSFER_TO_NEW_CHUNKS * CHUNK_BYTES
            &&& s[0] == TRANSFER_TO_NEW_OP_CODE
            &&& be_value(s.subrange(1, 5)) == op.from
            &&& be_value(s.subrange(5, 7)) == op.tx.token
            &&& unpacked_amount_value(s.subrange(7, 12)) == op.tx.amount
            &&& s.subrange(12, 32) == op.tx.to@
            &&& be_value(s.subrange(32, 36)) == op.to
            &&& unpacked_fee_value(s.subrange(36, 38)) == op.tx.fee
        }),
{
    let s = transfer_to_new_pubdata(op);
    lemma_be_bytes_len(op.from as nat, ACCOUNT_ID_BYTES as nat);
    lemma_be_bytes_len(op.tx.token as nat, TOKEN_BYTES as nat);
    lemma_be_bytes_len(op.to as nat, ACCOUNT_ID_BYTES as nat);
    assert(packed_amount_bytes(op.tx.amount as nat).len() == 5) by {
        lemma_be_bytes_len(
            pack_split_bits_amount(op.tx.amount as nat),
            crate::params::AMOUNT_PACKED_BYTES as nat,
        );
    }
    assert(packed_fee_bytes(op.tx.fee as nat).len() == 2) by {
        lemma_be_bytes_len(
            pack_split_bits_fee(op.tx.fee as nat),
            crate::params::FEE_PACKED_BYTES as nat,
        );
    }
    assert(s.subrange(1, 5) =~= be_bytes(op.from as nat, ACCOUNT_ID_BYTES as nat));
    assert(s.subrange(5, 7) =~= be_bytes(op.tx.token as nat, TOKEN_BYTES as nat));
    assert(s.subrange(7, 12) =~= packed_amount_bytes(op.tx.amount as nat));
    assert(s.subrange(12, 32) =~= op.tx.to@);
    assert(s.subrange(32, 36) =~= be_bytes(op.to as nat, ACCOUNT_ID_BYTES as nat));
    assert(s.subrange(36, 38) =~= packed_fee_bytes(op.tx.fee as nat));
    lemma_pow256_small();
    lemma_be_value_of_be_bytes(op.from as nat, ACCOUNT_ID_BYTES as nat);
    lemma_be_value_of_be_bytes(op.tx.token as nat, TOKEN_BYTES as nat);
    lemma_be_value_of_be_bytes(op.to as nat, ACCOUNT_ID_BYTES as nat);
    lemma_packed_amount_round_trip(op.tx.amount as nat);
    lemma_pack_value_exact(op.tx.amount as nat, AMOUNT_MANTISSA_LIMIT as nat);
    lemma_packed_fee_round_trip(op.tx.fee as nat);
    lemma_pack_value_exact(op.tx.fee as nat, FEE_MANTISSA_LIMIT as nat);
}

// ---------------------------------------------------------------------------
// Withdraw
// ---------------------------------------------------------------------------

/// A withdrawal applied to the ledger, with the resolved sender identifier.
#[derive(Clone, Debug, PartialEq)]
pub struct WithdrawOp {
    pub tx: Withdraw,
    pub account_id: AccountId,
}

pub open spec fn withdraw_op_wf(op: WithdrawOp) -> bool {
    withdraw_wf(op.tx)
}

pub open spec fn withdraw_pubdata(op: WithdrawOp) -> Seq<u8> {
    zero_pad(
        seq![WITHDRAW_OP_CODE] + be_bytes(op.account_id as nat, ACCOUNT_ID_BYTES as nat)
            + be_bytes(op.tx.token as nat, TOKEN_BYTES as nat) + be_bytes(
            op.tx.amount as nat,
            BALANCE_BYTES as nat,
        ) + packed_fee_bytes(op.tx.fee as nat) + op.tx.to@,
        (WITHDRAW_CHUNKS * CHUNK_BYTES) as nat,
    )
}

/// The fixed-width withdrawal record of a withdraw operation:
/// recipient, token, amount.
pub open spec fn withdraw_withdrawal_data(op: WithdrawOp) -> Seq<u8> {
    op.tx.to@ + be_bytes(op.tx.token as nat, TOKEN_BYTES as nat) + be_bytes(
        op.tx.amount as nat,
        BALANCE_BYTES as nat,
    )
}

impl WithdrawOp {
    pub fn get_public_data(&self) -> (r: Vec<u8>)
        requires
            withdraw_op_wf(*self),
        ensures
            r@ == withdraw_pubdata(*self),
            r@.len() == WITHDRAW_CHUNKS * CHUNK_BYTES,
    {
        proof {
            lemma_be_bytes_len(self.account_id as nat, ACCOUNT_ID_BYTES as nat);
            lemma_be_bytes_len(self.tx.token as nat, TOKEN_BYTES as nat);
            lemma_be_bytes_len(self.tx.amount as nat, BALANCE_BYTES as nat);
        }
        let mut data: Vec<u8> = Vec::new();
        data.push(WITHDRAW_OP_CODE);
        let piece = nat_to_be_vec(self.account_id as u128, ACCOUNT_ID_BYTES);
        push_bytes(&mut data, piece.as_slice());
        let piece = nat_to_be_vec(self.tx.token as u128, TOKEN_BYTES);
        push_bytes(&mut data, piece.as_slice());
        let piece = nat_to_be_vec(self.tx.amount, BALANCE_BYTES);
        push_bytes(&mut data, piece.as_slice());
        let piece = pack_fee_amount(self.tx.fee);
        push_bytes(&mut data, piece.as_slice());
        push_bytes(&mut data, self.tx.to.as_slice());
        let pad = WITHDRAW_CHUNKS * CHUNK_BYTES - data.len();
        push_zeros(&mut data, pad);
        assert(data@ =~= withdraw_pubdata(*self));
        data
    }

    /// The withdrawal record this operation contributes on-chain.
    pub fn get_withdrawal_data(&self) -> (r: Vec<u8>)
        requires
            withdraw_op_wf(*self),
        ensures
            r@ == withdraw_withdrawal_data(*self),
            r@.len() == crate::params::WITHDRAWAL_RECORD_BYTES,
    {
        proof {
            lemma_be_bytes_len(self.tx.token as nat, TOKEN_BYTES as nat);
            lemma_be_bytes_len(self.tx.amount as nat, BALANCE_BYTES as nat);
        }
        let mut data: Vec<u8> = Vec::new();
        push_bytes(&mut data, self.tx.to.as_slice());
        let piece = nat_to_be_vec(self.tx.token as u128, TOKEN_BYTES);
        push_bytes(&mut data, piece.as_slice());
        let piece = nat_to_be_vec(self.tx.amount, BALANCE_BYTES);
        push_bytes(&mut data, piece.as_slice());
        assert(data@ =~= withdraw_withdrawal_data(*self));
        data
    }

    /// Decodes the on-chain fields; the sender's address, nonce and
    /// signature are not committed and are zero after decoding.
    pub fn from_public_data(bytes: &[u8]) -> (r: Result<WithdrawOp, CodecError>)
        ensures
            r is Ok <==> bytes@.len() >= 45,
            r matches Ok(op) ==> ({
                &&& op.account_id as nat == be_value(bytes@.subrange(1, 5))
                &&& op.tx.token as nat == be_value(bytes@.subrange(5, 7))
                &&& op.tx.amount as nat == be_value(bytes@.subrange(7, 23))
                &&& op.tx.fee as nat == unpacked_fee_value(bytes@.subrange(23, 25))
                &&& op.tx.to@ == bytes@.subrange(25, 45)
                &&& op.tx.from@ == zero_seq(20)
                &&& op.tx.nonce == 0
            }),
    {
        if bytes.len() < 45 {
            return Err(CodecError::DataTooShort);
        }
        proof {
            lemma_be_value_bound(bytes@.subrange(1, 5));
            lemma_be_value_bound(bytes@.subrange(5, 7));
            lemma_be_value_bound(bytes@.subrange(7, 23));
            lemma_pow256_small();
            lemma_pow256_16();
        }
        let account_id = be_slice_to_u128(&bytes[1..5]) as u32;
        let token = be_slice_to_u128(&bytes[5..7]) as u16;
        let amount = be_slice_to_u128(&bytes[7..23]);
        let fee = match unpack_fee_amount(&bytes[23..25]) {
            Some(f) => f,
            None => {
                return Err(CodecError::DataTooShort);
            },
        };
        let to = slice_to_vec(&bytes[25..45]);
        Ok(
            WithdrawOp {
                tx: Withdraw {
                    from: zero_vec(20),
                    to,
                    token,
                    amount,
                    fee,
                    nonce: 0,
                    signer_pub_key_hash: zero_vec(20),
                },
                account_id,
            },
        )
    }
}

/// Reading back an encoded withdraw restores every on-chain field.
pub proof fn lemma_withdraw_round_trip(op: WithdrawOp)
    requires
        withdraw_op_wf(op),
    ensures
        ({
            let s = withdraw_pubdata(op);
            &&& s.len() == WITHDRAW_CHUNKS * CHUNK_BYTES
            &&& s[0] == WITHDRAW_OP_CODE
            &&& be_value(s.subrange(1, 5)) == op.account_id
            &&& be_value(s.subrange(5, 7)) == op.tx.token
            &&& be_value(s.subrange(7, 23)) == op.tx.amount
            &&& unpacked_fee_value(s.subrange(23, 25)) == op.tx.fee
            &&& s.subrange(25, 45) == op.tx.to@
        }),
{
    let s = withdraw_pubdata(op);
    lemma_be_bytes_len(op.account_id as nat, ACCOUNT_ID_BYTES as nat);
    lemma_be_bytes_len(op.tx.token as nat, TOKEN_BYTES as nat);
    lemma_be_bytes_len(op.tx.amount as nat, BALANCE_BYTES as nat);
    assert(packed_fee_bytes(op.tx.fee as nat).len() == 2) by {
        lemma_be_bytes_len(
            pack_split_bits_fee(op.tx.fee as nat),
            crate::params::FEE_PACKED_BYTES as nat,
        );
    }
    assert(s.subrange(1, 5) =~= be_bytes(op.account_id as nat, ACCOUNT_ID_BYTES as nat));
    assert(s.subrange(5, 7) =~= be_bytes(op.tx.token as nat, TOKEN_BYTES as nat));
    assert(s.subrange(7, 23) =~= be_bytes(op.tx.amount as nat, BALANCE_BYTES as nat));
    assert(s.subrange(23, 25) =~= packed_fee_bytes(op.tx.fee as nat));
    assert(s.subrange(25, 45) =~= op.tx.to@);
    lemma_pow256_small();
    lemma_pow256_16();
    lemma_be_value_of_be_bytes(op.account_id as nat, ACCOUNT_ID_BYTES as nat);
    lemma_be_value_of_be_bytes(op.tx.token as nat, TOKEN_BYTES as nat);
    lemma_be_value_of_be_bytes(op.tx.amount as nat, BALANCE_BYTES as nat);
    lemma_packed_fee_round_trip(op.tx.fee as nat);
    lemma_pack_value_exact(op.tx.fee as nat, FEE_MANTISSA_LIMIT as nat);
}

// ---------------------------------------------------------------------------
// Full exit
// ---------------------------------------------------------------------------

/// A full exit applied to the ledger: the priority payload plus the amount
/// actually withdrawn (`None` when the target account did not match, which
/// commits a zero amount).
#[derive(Clone, Debug, PartialEq)]
pub struct FullExitOp {
    pub priority_op: FullExit,
    pub withdraw_amount: Option<u128>,
}

pub open spec fn full_exit_op_wf(op: FullExitOp) -> bool {
    full_exit_wf(op.priority_op)
}

/// The amount a full exit commits: the withdrawn amount, or zero.
pub open spec fn full_exit_amount(op: FullExitOp) -> nat {
    match op.withdraw_amount {
        Some(a) => a as nat,
        None => 0,
    }
}

pub open spec fn full_exit_pubdata(op: FullExitOp) -> Seq<u8> {
    zero_pad(
        seq![FULL_EXIT_OP_CODE] + be_bytes(op.priority_op.account_id as nat, ACCOUNT_ID_BYTES as nat)
            + op.priority_op.eth_address@ + be_bytes(op.priority_op.token as nat, TOKEN_BYTES as nat)
            + be_bytes(full_exit_amount(op), BALANCE_BYTES as nat),
        (FULL_EXIT_CHUNKS * CHUNK_BYTES) as nat,
    )
}

/// The fixed-width withdrawal record of a full exit.
pub open spec fn full_exit_withdrawal_data(op: FullExitOp) -> Seq<u8> {
    op.priority_op.eth_address@ + be_bytes(op.priority_op.token as nat, TOKEN_BYTES as nat)
        + be_bytes(full_exit_amount(op), BALANCE_BYTES as nat)
}

impl FullExitOp {
    pub fn get_public_data(&self) -> (r: Vec<u8>)
        requires
            full_exit_op_wf(*self),
        ensures
            r@ == full_exit_pubdata(*self),
            r@.len() == FULL_EXIT_CHUNKS * CHUNK_BYTES,
    {
        proof {
            lemma_be_bytes_len(self.priority_op.account_id as nat, ACCOUNT_ID_BYTES as nat);
            lemma_be_bytes_len(self.priority_op.token as nat, TOKEN_BYTES as nat);
            lemma_be_bytes_len(full_exit_amount(*self), BALANCE_BYTES as nat);
        }
        let amount: u128 = match &self.withdraw_amount {
            Some(a) => *a,
            None => 0,
        };
        let mut data: Vec<u8> = Vec::new();
        data.push(FULL_EXIT_OP_CODE);
        let piece = nat_to_be_vec(self.priority_op.account_id as u128, ACCOUNT_ID_BYTES);
        push_bytes(&mut data, piece.as_slice());
        push_bytes(&mut data, self.priority_op.eth_address.as_slice());
        let piece = nat_to_be_vec(self.priority_op.token as u128, TOKEN_BYTES);
        push_bytes(&mut data, piece.as_slice());
        let piece = nat_to_be_vec(amount, BALANCE_BYTES);
        push_bytes(&mut data, piece.as_slice());
        let pad = FULL_EXIT_CHUNKS * CHUNK_BYTES - data.len();
        push_zeros(&mut data, pad);
        assert(data@ =~= full_exit_pubdata(*self));
        data
    }

    /// The withdrawal record this operation contributes on-chain.
    pub fn get_withdrawal_data(&self) -> (r: Vec<u8>)
        requires
            full_exit_op_wf(*self),
        ensures
            r@ == full_exit_withdrawal_data(*self),
            r@.len() == crate::params::WITHDRAWAL_RECORD_BYTES,
    {
        proof {
            lemma_be_bytes_len(self.priority_op.token as nat, TOKEN_BYTES as nat);
            lemma_be_bytes_len(full_exit_amount(*self), BALANCE_BYTES as nat);
        }
        let amount: u128 = match &self.withdraw_amount {
            Some(a) => *a,
            None => 0,
        };
        let mut data: Vec<u8> = Vec::new();
        push_bytes(&mut data, self.priority_op.eth_address.as_slice());
        let piece = nat_to_be_vec(self.priority_op.token as u128, TOKEN_BYTES);
        push_bytes(&mut data, piece.as_slice());
        let piece = nat_to_be_vec(amount, BALANCE_BYTES);
        push_bytes(&mut data, piece.as_slice());
        assert(data@ =~= full_exit_withdrawal_data(*self));
        data
    }

    /// Decodes the on-chain fields of a full exit; the committed amount
    /// comes back as the withdrawn amount.
    pub fn from_public_data(bytes: &[u8]) -> (r: Result<FullExitOp, CodecError>)
        ensures
            r is Ok <==> bytes@.len() >= 43,
            r matches Ok(op) ==> ({
                &&& op.priority_op.account_id as nat == be_value(bytes@.subrange(1, 5))
                &&& op.priority_op.eth_address@ == bytes@.subrange(5, 25)
                &&& op.priority_op.token as nat == be_value(bytes@.subrange(25, 27))
                &&& op.withdraw_amount matches Some(a) && a as nat == be_value(
                    bytes@.subrange(27, 43),
                )
                &&& full_exit_op_wf(op)
            }),
    {
        if bytes.len() < 43 {
            return Err(CodecError::DataTooShort);
        }
        proof {
            lemma_be_value_bound(bytes@.subrange(1, 5));
            lemma_be_value_bound(bytes@.subrange(25, 27));
            lemma_be_value_bound(bytes@.subrange(27, 43));
            lemma_pow256_small();
            lemma_pow256_16();
        }
        let account_id = be_slice_to_u128(&bytes[1..5]) as u32;
        let eth_address = slice_to_vec(&bytes[5..25]);
        let token = be_slice_to_u128(&bytes[25..27]) as u16;
        let amount = be_slice_to_u128(&bytes[27..43]);
        Ok(
            FullExitOp {
                priority_op: FullExit { account_id, eth_address, token },
                withdraw_amount: Some(amount),
            },
        )
    }
}

/// Reading back an encoded full exit restores every on-chain field.
pub proof fn lemma_full_exit_round_trip(op: FullExitOp)
    requires
        full_exit_op_wf(op),
    ensures
        ({
            let s = full_exit_pubdata(op);
            &&& s.len() == FULL_EXIT_CHUNKS * CHUNK_BYTES
            &&& s[0] == FULL_EXIT_OP_CODE
            &&& be_value(s.subrange(1, 5)) == op.priority_op.account_id
            &&& s.subrange(5, 25) == op.priority_op.eth_address@
            &&& be_value(s.subrange(25, 27)) == op.priority_op.token
            &&& be_value(s.subrange(27, 43)) == full_exit_amount(op)
        }),
{
    let s = full_exit_pubdata(op);
    lemma_be_bytes_len(op.priority_op.account_id as nat, ACCOUNT_ID_BYTES as nat);
    lemma_be_bytes_len(op.priority_op.token as nat, TOKEN_BYTES as nat);
    lemma_be_bytes_len(full_exit_amount(op), BALANCE_BYTES as nat);
    assert(s.subrange(1, 5) =~= be_bytes(op.priority_op.account_id as nat, ACCOUNT_ID_BYTES as nat));
    assert(s.subrange(5, 25) =~= op.priority_op.eth_address@);
    assert(s.subrange(25, 27) =~= be_bytes(op.priority_op.token as nat, TOKEN_BYTES as nat));
    assert(s.subrange(27, 43) =~= be_bytes(full_exit_amount(op), BALANCE_BYTES as nat));
    lemma_pow256_small();
    lemma_pow256_16();
    lemma_be_value_of_be_bytes(op.priority_op.account_id as nat, ACCOUNT_ID_BYTES as nat);
    lemma_be_value_of_be_bytes(op.priority_op.token as nat, TOKEN_BYTES as nat);
    lemma_be_value_of_be_bytes(full_exit_amount(op), BALANCE_BYTES as nat);
}

// ---------------------------------------------------------------------------
// Change pubkey
// ---------------------------------------------------------------------------

/// A public-key registration applied to the ledger.
#[derive(Clone, Debug, PartialEq)]
pub struct ChangePubKeyOp {
    pub tx: ChangePubKey,
    pub account_id: AccountId,
}

pub open spec fn change_pubkey_op_wf(op: ChangePubKeyOp) -> bool {
    change_pubkey_wf(op.tx)
}

pub open spec fn change_pubkey_pubdata(op: ChangePubKeyOp) -> Seq<u8> {
    zero_pad(
        seq![CHANGE_PUBKEY_OP_CODE] + be_bytes(op.account_id as nat, ACCOUNT_ID_BYTES as nat)
            + op.tx.new_pk_hash@ + op.tx.account@ + be_bytes(op.tx.nonce as nat, NONCE_BYTES as nat)
            + be_bytes(op.tx.fee_token as nat, TOKEN_BYTES as nat) + packed_fee_bytes(
            op.tx.fee as nat,
        ),
        (CHANGE_PUBKEY_CHUNKS * CHUNK_BYTES) as nat,
    )
}

/// The Ethereum-side witness of a change-pubkey operation: a tagged packed
/// signature, a tagged create2 preimage, or nothing for an on-chain
/// authorisation.
pub open spec fn change_pubkey_witness(op: ChangePubKeyOp) -> Seq<u8> {
    match op.tx.change_pubkey_type {
        ChangePubKeyType::EthereumSignature { eth_signature } => seq![0x01u8] + eth_signature@,
        ChangePubKeyType::Create2Contract { creator_address, salt_arg, code_hash } => seq![0x02u8]
            + creator_address@ + salt_arg@ + code_hash@,
        ChangePubKeyType::OnchainTransaction => Seq::empty(),
    }
}

impl ChangePubKeyOp {
    pub fn get_public_data(&self) -> (r: Vec<u8>)
        requires
            change_pubkey_op_wf(*self),
        ensures
            r@ == change_pubkey_pubdata(*self),
            r@.len() == CHANGE_PUBKEY_CHUNKS * CHUNK_BYTES,
    {
        proof {
            lemma_be_bytes_len(self.account_id as nat, ACCOUNT_ID_BYTES as nat);
            lemma_be_bytes_len(self.tx.nonce as nat, NONCE_BYTES as nat);
            lemma_be_bytes_len(self.tx.fee_token as nat, TOKEN_BYTES as nat);
        }
        let mut data: Vec<u8> = Vec::new();
        data.push(CHANGE_PUBKEY_OP_CODE);
        let piece = nat_to_be_vec(self.account_id as u128, ACCOUNT_ID_BYTES);
        push_bytes(&mut data, piece.as_slice());
        push_bytes(&mut data, self.tx.new_pk_hash.as_slice());
        push_bytes(&mut data, self.tx.account.as_slice());
        let piece = nat_to_be_vec(self.tx.nonce as u128, NONCE_BYTES);
        push_bytes(&mut data, piece.as_slice());
        let piece = nat_to_be_vec(self.tx.fee_token as u128, TOKEN_BYTES);
        push_bytes(&mut data, piece.as_slice());
        let piece = pack_fee_amount(self.tx.fee);
        push_bytes(&mut data, piece.as_slice());
        let pad = CHANGE_PUBKEY_CHUNKS * CHUNK_BYTES - data.len();
        push_zeros(&mut data, pad);
        assert(data@ =~= change_pubkey_pubdata(*self));
        data
    }

    /// The Ethereum-side witness bytes of this operation.
    pub fn get_eth_witness(&self) -> (r: Vec<u8>)
        ensures
            r@ == change_pubkey_witness(*self),
    {
        let mut eth_witness: Vec<u8> = Vec::new();
        match &self.tx.change_pubkey_type {
            ChangePubKeyType::EthereumSignature { eth_signature } => {
                eth_witness.push(0x01);
                push_bytes(&mut eth_witness, eth_signature.as_slice());
                assert(eth_witness@ =~= change_pubkey_witness(*self));
            },
            ChangePubKeyType::Create2Contract { creator_address, salt_arg, code_hash } => {
                eth_witness.push(0x02);
                push_bytes(&mut eth_witness, creator_address.as_slice());
                push_bytes(&mut eth_witness, salt_arg.as_slice());
                push_bytes(&mut eth_witness, code_hash.as_slice());
                assert(eth_witness@ =~= change_pubkey_witness(*self));
            },
            ChangePubKeyType::OnchainTransaction => {
                assert(eth_witness@ =~= change_pubkey_witness(*self));
            },
        }
        eth_witness
    }

    /// Decodes the on-chain fields; the authorisation kind is not committed,
    /// so a decoded operation carries the on-chain-transaction kind.
    pub fn from_public_data(bytes: &[u8]) -> (r: Result<ChangePubKeyOp, CodecError>)
        ensures
            r is Ok <==> bytes@.len() >= 53,
            r matches Ok(op) ==> ({
                &&& op.account_id as nat == be_value(bytes@.subrange(1, 5))
                &&& op.tx.new_pk_hash@ == bytes@.subrange(5, 25)
                &&& op.tx.account@ == bytes@.subrange(25, 45)
                &&& op.tx.nonce as nat == be_value(bytes@.subrange(45, 49))
                &&& op.tx.fee_token as nat == be_value(bytes@.subrange(49, 51))
                &&& op.tx.fee as nat == unpacked_fee_value(bytes@.subrange(51, 53))
                &&& op.tx.account_id == op.account_id
                &&& op.tx.change_pubkey_type == ChangePubKeyType::OnchainTransaction
            }),
    {
        if bytes.len() < 53 {
            return Err(CodecError::DataTooShort);
        }
        proof {
            lemma_be_value_bound(bytes@.subrange(1, 5));
            lemma_be_value_bound(bytes@.subrange(45, 49));
            lemma_be_value_bound(bytes@.subrange(49, 51));
            lemma_pow256_small();
        }
        let account_id = be_slice_to_u128(&bytes[1..5]) as u32;
        let new_pk_hash = slice_to_vec(&bytes[5..25]);
        let account = slice_to_vec(&bytes[25..45]);
        let nonce = be_slice_to_u128(&bytes[45..49]) as u32;
        let fee_token = be_slice_to_u128(&bytes[49..51]) as u16;
        let fee = match unpack_fee_amount(&bytes[51..53]) {
            Some(f) => f,
            None => {
                return Err(CodecError::DataTooShort);
            },
        };
        Ok(
            ChangePubKeyOp {
                tx: ChangePubKey {
                    account_id,
                    account,
                    new_pk_hash,
                    fee_token,
                    fee,
                    nonce,
                    change_pubkey_type: ChangePubKeyType::OnchainTransaction,
                },
                account_id,
            },
        )
    }

    /// The accounts whose state this operation changes.
    pub fn get_updated_account_ids(&self) -> (r: Vec<AccountId>)
        ensures
            r@ == seq![self.account_id],
    {
        let mut r: Vec<AccountId> = Vec::new();
        r.push(self.account_id);
        assert(r@ =~= seq![self.account_id]);
        r
    }
}

/// Reading back an encoded change-pubkey restores every on-chain field.
pub proof fn lemma_change_pubkey_round_trip(op: ChangePubKeyOp)
    requires
        change_pubkey_op_wf(op),
    ensures
        ({
            let s = change_pubkey_pubdata(op);
            &&& s.len() == CHANGE_PUBKEY_CHUNKS * CHUNK_BYTES
            &&& s[0] == CHANGE_PUBKEY_OP_CODE
            &&& be_value(s.subrange(1, 5)) == op.account_id
            &&& s.subrange(5, 25) == op.tx.new_pk_hash@
            &&& s.subrange(25, 45) == op.tx.account@
            &&& be_value(s.subrange(45, 49)) == op.tx.nonce
            &&& be_value(s.subrange(49, 51)) == op.tx.fee_token
            &&& unpacked_fee_value(s.subrange(51, 53)) == op.tx.fee
        }),
{
    let s = change_pubkey_pubdata(op);
    lemma_be_bytes_len(op.account_id as nat, ACCOUNT_ID_BYTES as nat);
    lemma_be_bytes_len(op.tx.nonce as nat, NONCE_BYTES as nat);
    lemma_be_bytes_len(op.tx.fee_token as nat, TOKEN_BYTES as nat);
    assert(packed_fee_bytes(op.tx.fee as nat).len() == 2) by {
        lemma_be_bytes_len(
            pack_split_bits_fee(op.tx.fee as nat),
            crate::params::FEE_PACKED_BYTES as nat,
        );
    }
    assert(s.subrange(1, 5) =~= be_bytes(op.account_id as nat, ACCOUNT_ID_BYTES as nat));
    assert(s.subrange(5, 25) =~= op.tx.new_pk_hash@);
    assert(s.subrange(25, 45) =~= op.tx.account@);
    assert(s.subrange(45, 49) =~= be_bytes(op.tx.nonce as nat, NONCE_BYTES as nat));
    assert(s.subrange(49, 51) =~= be_bytes(op.tx.fee_token as nat, TOKEN_BYTES as nat));
    assert(s.subrange(51, 53) =~= packed_fee_bytes(op.tx.fee as nat));
    lemma_pow256_small();
    lemma_be_value_of_be_bytes(op.account_id as nat, ACCOUNT_ID_BYTES as nat);
    lemma_be_value_of_be_bytes(op.tx.nonce as nat, NONCE_BYTES as nat);
    lemma_be_value_of_be_bytes(op.tx.fee_token as nat, TOKEN_BYTES as nat);
    lemma_packed_fee_round_trip(op.tx.fee as nat);
    lemma_pack_value_exact(op.tx.fee as nat, FEE_MANTISSA_LIMIT as nat);
}

/// The bit field of a packed amount, for length reasoning.
pub open spec fn pack_split_bits_amount(v: nat) -> nat {
    let (e, m) = crate::packing::pack_split(v, AMOUNT_MANTISSA_LIMIT as nat);
    e * (AMOUNT_MANTISSA_LIMIT as nat) + m
}

/// The bit field of a packed fee, for length reasoning.
pub open spec fn pack_split_bits_fee(v: nat) -> nat {
    let (e, m) = crate::packing::pack_split(v, FEE_MANTISSA_LIMIT as nat);
    e * (FEE_MANTISSA_LIMIT as nat) + m
}

// ---------------------------------------------------------------------------
// The closed sum of operation kinds
// ---------------------------------------------------------------------------

/// An operation as recorded in a block, over the fixed set of kinds.
#[derive(Clone, Debug, PartialEq)]
pub enum FranklinOp {
    Noop,
    Deposit(Box<DepositOp>),
    TransferToNew(Box<TransferToNewOp>),
    Withdraw(Box<WithdrawOp>),
    Transfer(Box<TransferOp>),
    FullExit(Box<FullExitOp>),
    ChangePubKey(Box<ChangePubKeyOp>),
}

pub open spec fn op_wf(op: FranklinOp) -> bool {
    match op {
        FranklinOp::Noop => true,
        FranklinOp::Deposit(o) => deposit_op_wf(*o),
        FranklinOp::TransferToNew(o) => transfer_to_new_op_wf(*o),
        FranklinOp::Withdraw(o) => withdraw_op_wf(*o),
        FranklinOp::Transfer(o) => transfer_op_wf(*o),
        FranklinOp::FullExit(o) => full_exit_op_wf(*o),
        FranklinOp::ChangePubKey(o) => change_pubkey_op_wf(*o),
    }
}

/// The fixed chunk cost of an operation kind.
pub open spec fn op_chunks(op: FranklinOp) -> nat {
    match op {
        FranklinOp::Noop => NOOP_CHUNKS as nat,
        FranklinOp::Deposit(_) => DEPOSIT_CHUNKS as nat,
        FranklinOp::TransferToNew(_) => TRANSFER_TO_NEW_CHUNKS as nat,
        FranklinOp::Withdraw(_) => WITHDRAW_CHUNKS as nat,
        FranklinOp::Transfer(_) => TRANSFER_CHUNKS as nat,
        FranklinOp::FullExit(_) => FULL_EXIT_CHUNKS as nat,
        FranklinOp::ChangePubKey(_) => CHANGE_PUBKEY_CHUNKS as nat,
    }
}

/// The opcode-prefixed fixed-width encoding of an operation.
pub open spec fn op_pubdata(op: FranklinOp) -> Seq<u8> {
    match op {
        FranklinOp::Noop => zero_seq((NOOP_CHUNKS * CHUNK_BYTES) as nat),
        FranklinOp::Deposit(o) => deposit_pubdata(*o),
        FranklinOp::TransferToNew(o) => transfer_to_new_pubdata(*o),
        FranklinOp::Withdraw(o) => withdraw_pubdata(*o),
        FranklinOp::Transfer(o) => transfer_pubdata(*o),
        FranklinOp::FullExit(o) => full_exit_pubdata(*o),
        FranklinOp::ChangePubKey(o) => change_pubkey_pubdata(*o),
    }
}

/// The witness material an operation declares, if any.
pub open spec fn op_witness(op: FranklinOp) -> Option<Seq<u8>> {
    match op {
        FranklinOp::ChangePubKey(o) => Some(change_pubkey_witness(*o)),
        _ => None,
    }
}

/// The withdrawal record an operation contributes, if it is of the
/// withdrawal class.
pub open spec fn op_withdrawal_data(op: FranklinOp) -> Option<Seq<u8>> {
    match op {
        FranklinOp::Withdraw(o) => Some(withdraw_withdrawal_data(*o)),
        FranklinOp::FullExit(o) => Some(full_exit_withdrawal_data(*o)),
        _ => None,
    }
}

/// Whether an operation is of the withdrawal class, counted against the
/// per-block withdrawal cap.
pub open spec fn op_is_withdrawal(op: FranklinOp) -> bool {
    op_withdrawal_data(op) is Some
}

/// A well-formed operation's encoding fills exactly its chunk cost.
pub proof fn lemma_op_pubdata_len(op: FranklinOp)
    requires
        op_wf(op),
    ensures
        op_pubdata(op).len() == op_chunks(op) * CHUNK_BYTES,
{
    match op {
        FranklinOp::Noop => {},
        FranklinOp::Deposit(o) => {
            lemma_be_bytes_len(o.account_id as nat, ACCOUNT_ID_BYTES as nat);
            lemma_be_bytes_len(o.priority_op.token as nat, TOKEN_BYTES as nat);
            lemma_be_bytes_len(o.priority_op.amount as nat, BALANCE_BYTES as nat);
        },
        FranklinOp::TransferToNew(o) => {
            lemma_be_bytes_len(o.from as nat, ACCOUNT_ID_BYTES as nat);
            lemma_be_bytes_len(o.tx.token as nat, TOKEN_BYTES as nat);
            lemma_be_bytes_len(o.to as nat, ACCOUNT_ID_BYTES as nat);
            lemma_be_bytes_len(
                pack_split_bits_amount(o.tx.amount as nat),
                crate::params::AMOUNT_PACKED_BYTES as nat,
            );
            lemma_be_bytes_len(
                pack_split_bits_fee(o.tx.fee as nat),
                crate::params::FEE_PACKED_BYTES as nat,
            );
        },
        FranklinOp::Withdraw(o) => {
            lemma_be_bytes_len(o.account_id as nat, ACCOUNT_ID_BYTES as nat);
            lemma_be_bytes_len(o.tx.token as nat, TOKEN_BYTES as nat);
            lemma_be_bytes_len(o.tx.amount as nat, BALANCE_BYTES as nat);
            lemma_be_bytes_len(
                pack_split_bits_fee(o.tx.fee as nat),
                crate::params::FEE_PACKED_BYTES as nat,
            );
        },
        FranklinOp::Transfer(o) => {
            lemma_be_bytes_len(o.from as nat, ACCOUNT_ID_BYTES as nat);
            lemma_be_bytes_len(o.tx.token as nat, TOKEN_BYTES as nat);
            lemma_be_bytes_len(o.to as nat, ACCOUNT_ID_BYTES as nat);
            lemma_be_bytes_len(
                pack_split_bits_amount(o.tx.amount as nat),
                crate::params::AMOUNT_PACKED_BYTES as nat,
            );
            lemma_be_bytes_len(
                pack_split_bits_fee(o.tx.fee as nat),
                crate::params::FEE_PACKED_BYTES as nat,
            );
        },
        FranklinOp::FullExit(o) => {
            lemma_be_bytes_len(o.priority_op.account_id as nat, ACCOUNT_ID_BYTES as nat);
            lemma_be_bytes_len(o.priority_op.token as nat, TOKEN_BYTES as nat);
            lemma_be_bytes_len(full_exit_amount(*o), BALANCE_BYTES as nat);
        },
        FranklinOp::ChangePubKey(o) => {
            lemma_be_bytes_len(o.account_id as nat, ACCOUNT_ID_BYTES as nat);
            lemma_be_bytes_len(o.tx.nonce as nat, NONCE_BYTES as nat);
            lemma_be_bytes_len(o.tx.fee_token as nat, TOKEN_BYTES as nat);
            lemma_be_bytes_len(
                pack_split_bits_fee(o.tx.fee as nat),
                crate::params::FEE_PACKED_BYTES as nat,
            );
        },
    }
}

impl FranklinOp {
    /// The fixed chunk cost of this operation.
    pub fn chunks(&self) -> (r: usize)
        ensures
            r as nat == op_chunks(*self),
    {
        match self {
            FranklinOp::Noop => NOOP_CHUNKS,
            FranklinOp::Deposit(_) => DEPOSIT_CHUNKS,
            FranklinOp::TransferToNew(_) => TRANSFER_TO_NEW_CHUNKS,
            FranklinOp::Withdraw(_) => WITHDRAW_CHUNKS,
            FranklinOp::Transfer(_) => TRANSFER_CHUNKS,
            FranklinOp::FullExit(_) => FULL_EXIT_CHUNKS,
            FranklinOp::ChangePubKey(_) => CHANGE_PUBKEY_CHUNKS,
        }
    }

    /// The opcode-prefixed fixed-width encoding of this operation.
    pub fn public_data(&self) -> (r: Vec<u8>)
        requires
            op_wf(*self),
        ensures
            r@ == op_pubdata(*self),
            r@.len() == op_chunks(*self) * CHUNK_BYTES,
    {
        match self {
            FranklinOp::Noop => zero_vec(NOOP_CHUNKS * CHUNK_BYTES),
            FranklinOp::Deposit(o) => o.get_public_data(),
            FranklinOp::TransferToNew(o) => o.get_public_data(),
            FranklinOp::Withdraw(o) => o.get_public_data(),
            FranklinOp::Transfer(o) => o.get_public_data(),
            FranklinOp::FullExit(o) => o.get_public_data(),
            FranklinOp::ChangePubKey(o) => o.get_public_data(),
        }
    }

    /// The witness material this operation declares, if any.
    pub fn eth_witness(&self) -> (r: Option<Vec<u8>>)
        ensures
            r is Some <==> op_witness(*self) is Some,
            r matches Some(w) ==> op_witness(*self) matches Some(sw) && w@ == sw,
    {
        match self {
            FranklinOp::ChangePubKey(o) => Some(o.get_eth_witness()),
            _ => None,
        }
    }

    /// The withdrawal record this operation contributes, if it is of the
    /// withdrawal class.
    pub fn withdrawal_data(&self) -> (r: Option<Vec<u8>>)
        requires
            op_wf(*self),
        ensures
            r is Some <==> op_withdrawal_data(*self) is Some,
            r matches Some(w) ==> op_withdrawal_data(*self) matches Some(sw) && w@ == sw,
    {
        match self {
            FranklinOp::Withdraw(o) => Some(o.get_withdrawal_data()),
            FranklinOp::FullExit(o) => Some(o.get_withdrawal_data()),
            _ => None,
        }
    }
}

} // verus!
