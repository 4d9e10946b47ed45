//! Amount packing and the fixed-width operation codec.

use rollup_engine::operations::{
    ChangePubKeyOp, DepositOp, FranklinOp, FullExitOp, TransferOp, TransferToNewOp, WithdrawOp,
};
use rollup_engine::packing::{
    closest_packable_fee_amount, closest_packable_token_amount, is_fee_amount_packable,
    is_token_amount_packable, pack_fee_amount, pack_token_amount, unpack_fee_amount,
    unpack_token_amount,
};
use rollup_engine::params::CHUNK_BYTES;
use rollup_engine::tx::{
    ChangePubKey, ChangePubKeyType, Deposit, FullExit, Transfer, Withdraw,
};

fn addr(b: u8) -> Vec<u8> {
    vec![b; 20]
}

fn hash32(b: u8) -> Vec<u8> {
    vec![b; 32]
}

#[test]
fn fee_packing_round_trip() {
    let packed = pack_fee_amount(1_000_000);
    assert_eq!(packed.len(), 2);
    let unpacked = unpack_fee_amount(&packed).unwrap();
    assert_eq!(unpacked, 1_000_000);
}

#[test]
fn amount_packing_round_trip() {
    let packed = pack_token_amount(12_340_000_000);
    assert_eq!(packed.len(), 5);
    let unpacked = unpack_token_amount(&packed).unwrap();
    assert_eq!(unpacked, 12_340_000_000);
}

#[test]
fn closest_packable_is_idempotent() {
    // A value with too many significant digits is truncated once, then
    // kept as is.
    let rounded = closest_packable_fee_amount(2049);
    assert_eq!(rounded, 2040);
    assert_eq!(closest_packable_fee_amount(rounded), rounded);
    assert!(is_fee_amount_packable(rounded));
    assert!(!is_fee_amount_packable(2049));

    let rounded = closest_packable_token_amount(123_456_789_012_345);
    assert_eq!(closest_packable_token_amount(rounded), rounded);
    assert!(is_token_amount_packable(rounded));
    assert!(rounded <= 123_456_789_012_345);
}

#[test]
fn small_values_are_packable() {
    assert!(is_fee_amount_packable(0));
    assert!(is_fee_amount_packable(2047));
    assert!(is_token_amount_packable(0));
    assert_eq!(closest_packable_fee_amount(0), 0);
}

#[test]
fn change_pubkey_round_trip() {
    // Encoding a change-pubkey operation and decoding the buffer recovers
    // every on-chain field.
    let op = ChangePubKeyOp {
        tx: ChangePubKey {
            account_id: 5,
            account: addr(0xAA),
            new_pk_hash: addr(0xBB),
            fee_token: 0,
            fee: 1_000_000,
            nonce: 3,
            change_pubkey_type: ChangePubKeyType::OnchainTransaction,
        },
        account_id: 5,
    };
    let data = op.get_public_data();
    assert_eq!(data.len(), 6 * CHUNK_BYTES);
    assert_eq!(data[0], 0x07);
    let decoded = ChangePubKeyOp::from_public_data(&data).unwrap();
    assert_eq!(decoded.account_id, 5);
    assert_eq!(decoded.tx.account_id, 5);
    assert_eq!(decoded.tx.nonce, 3);
    assert_eq!(decoded.tx.fee_token, 0);
    assert_eq!(
        decoded.tx.fee,
        unpack_fee_amount(&pack_fee_amount(1_000_000)).unwrap()
    );
    assert_eq!(decoded.tx.new_pk_hash, addr(0xBB));
    assert_eq!(decoded.tx.account, addr(0xAA));
    // The authorisation kind is never committed on-chain.
    assert_eq!(
        decoded.tx.change_pubkey_type,
        ChangePubKeyType::OnchainTransaction
    );
}

#[test]
fn change_pubkey_witness_kinds() {
    let mut op = ChangePubKeyOp {
        tx: ChangePubKey {
            account_id: 1,
            account: addr(1),
            new_pk_hash: addr(2),
            fee_token: 0,
            fee: 0,
            nonce: 0,
            change_pubkey_type: ChangePubKeyType::EthereumSignature {
                eth_signature: vec![0x5A; 65],
            },
        },
        account_id: 1,
    };
    let witness = op.get_eth_witness();
    assert_eq!(witness.len(), 66);
    assert_eq!(witness[0], 0x01);
    assert_eq!(&witness[1..], &[0x5A; 65][..]);

    op.tx.change_pubkey_type = ChangePubKeyType::Create2Contract {
        creator_address: addr(3),
        salt_arg: hash32(4),
        code_hash: hash32(5),
    };
    let witness = op.get_eth_witness();
    assert_eq!(witness.len(), 1 + 20 + 32 + 32);
    assert_eq!(witness[0], 0x02);

    op.tx.change_pubkey_type = ChangePubKeyType::OnchainTransaction;
    assert!(op.get_eth_witness().is_empty());

    assert_eq!(op.get_updated_account_ids(), vec![1]);
}

#[test]
fn deposit_round_trip() {
    let op = DepositOp {
        priority_op: Deposit {
            from: addr(0x11),
            token: 2,
            amount: 123_456_789,
            to: addr(0x22),
        },
        account_id: 7,
    };
    let data = op.get_public_data();
    assert_eq!(data.len(), 6 * CHUNK_BYTES);
    assert_eq!(data[0], 0x01);
    let decoded = DepositOp::from_public_data(&data).unwrap();
    assert_eq!(decoded.account_id, 7);
    assert_eq!(decoded.priority_op.token, 2);
    assert_eq!(decoded.priority_op.amount, 123_456_789);
    assert_eq!(decoded.priority_op.to, addr(0x22));
    // The depositing L1 address is never committed on-chain.
    assert_eq!(decoded.priority_op.from, vec![0u8; 20]);
}

#[test]
fn transfer_round_trip() {
    let op = TransferOp {
        tx: Transfer {
            from: addr(0x31),
            to: addr(0x32),
            token: 1,
            amount: 5_000_000,
            fee: 1_000,
            nonce: 9,
            signer_pub_key_hash: addr(0x33),
        },
        from: 3,
        to: 4,
    };
    let data = op.get_public_data();
    assert_eq!(data.len(), 2 * CHUNK_BYTES);
    assert_eq!(data[0], 0x05);
    let decoded = TransferOp::from_public_data(&data).unwrap();
    assert_eq!(decoded.from, 3);
    assert_eq!(decoded.to, 4);
    assert_eq!(decoded.tx.token, 1);
    assert_eq!(decoded.tx.amount, 5_000_000);
    assert_eq!(decoded.tx.fee, 1_000);
}

#[test]
fn transfer_to_new_round_trip() {
    let op = TransferToNewOp {
        tx: Transfer {
            from: addr(0x41),
            to: addr(0x42),
            token: 3,
            amount: 70_000,
            fee: 20,
            nonce: 1,
            signer_pub_key_hash: addr(0x43),
        },
        from: 2,
        to: 8,
    };
    let data = op.get_public_data();
    assert_eq!(data.len(), 6 * CHUNK_BYTES);
    assert_eq!(data[0], 0x02);
    let decoded = TransferToNewOp::from_public_data(&data).unwrap();
    assert_eq!(decoded.from, 2);
    assert_eq!(decoded.to, 8);
    assert_eq!(decoded.tx.to, addr(0x42));
    assert_eq!(decoded.tx.token, 3);
    assert_eq!(decoded.tx.amount, 70_000);
    assert_eq!(decoded.tx.fee, 20);
}

#[test]
fn withdraw_round_trip() {
    let op = WithdrawOp {
        tx: Withdraw {
            from: addr(0x51),
            to: addr(0x52),
            token: 0,
            amount: 999_999_999,
            fee: 300,
            nonce: 2,
            signer_pub_key_hash: addr(0x53),
        },
        account_id: 11,
    };
    let data = op.get_public_data();
    assert_eq!(data.len(), 6 * CHUNK_BYTES);
    assert_eq!(data[0], 0x03);
    let decoded = WithdrawOp::from_public_data(&data).unwrap();
    assert_eq!(decoded.account_id, 11);
    assert_eq!(decoded.tx.token, 0);
    assert_eq!(decoded.tx.amount, 999_999_999);
    assert_eq!(decoded.tx.fee, 300);
    assert_eq!(decoded.tx.to, addr(0x52));

    let record = op.get_withdrawal_data();
    assert_eq!(record.len(), 38);
    assert_eq!(&record[0..20], &addr(0x52)[..]);
}

#[test]
fn full_exit_round_trip() {
    let op = FullExitOp {
        priority_op: FullExit {
            account_id: 6,
            eth_address: addr(0x61),
            token: 4,
        },
        withdraw_amount: Some(42),
    };
    let data = op.get_public_data();
    assert_eq!(data.len(), 6 * CHUNK_BYTES);
    assert_eq!(data[0], 0x06);
    let decoded = FullExitOp::from_public_data(&data).unwrap();
    assert_eq!(decoded.priority_op.account_id, 6);
    assert_eq!(decoded.priority_op.eth_address, addr(0x61));
    assert_eq!(decoded.priority_op.token, 4);
    assert_eq!(decoded.withdraw_amount, Some(42));

    // An unmatched full exit commits a zero amount.
    let zero_op = FullExitOp {
        priority_op: FullExit {
            account_id: 6,
            eth_address: addr(0x61),
            token: 4,
        },
        withdraw_amount: None,
    };
    let decoded = FullExitOp::from_public_data(&zero_op.get_public_data()).unwrap();
    assert_eq!(decoded.withdraw_amount, Some(0));
}

#[test]
fn decode_rejects_short_buffers() {
    assert!(ChangePubKeyOp::from_public_data(&[0x07; 10]).is_err());
    assert!(DepositOp::from_public_data(&[]).is_err());
    assert!(TransferOp::from_public_data(&[0x05]).is_err());
}

#[test]
fn chunk_costs() {
    let noop = FranklinOp::Noop;
    assert_eq!(noop.chunks(), 1);
    assert_eq!(noop.public_data(), vec![0u8; CHUNK_BYTES]);
}
