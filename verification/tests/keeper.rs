//! The state keeper: batches, deferral, watermark and sealing.

use rollup_engine::block::{smallest_block_size_for_chunks, ExecutedOperations};
use rollup_engine::keeper::{
    ApplyOrdering, KeeperConfig, PlasmaStateKeeper, ProposedBlock, ProtocolError,
};
use rollup_engine::testkit::genesis_state;
use rollup_engine::tx::{
    ChangePubKey, ChangePubKeyType, Deposit, FranklinPriorityOp, FranklinTx, PriorityOp, Transfer,
    Withdraw,
};

fn addr(b: u8) -> Vec<u8> {
    vec![b; 20]
}

fn config(ordering: ApplyOrdering) -> KeeperConfig {
    KeeperConfig {
        available_block_chunks_sizes: vec![10, 50, 100],
        max_withdrawals_per_block: 2,
        max_block_iterations: 10,
        max_token_id: 5,
        ordering,
    }
}

fn keeper(ordering: ApplyOrdering) -> PlasmaStateKeeper {
    PlasmaStateKeeper::new(genesis_state(&addr(0xFE)), 0, config(ordering), 1000)
}

fn deposit_op(serial_id: u64, to: Vec<u8>, token: u16, amount: u128) -> PriorityOp {
    PriorityOp {
        serial_id,
        data: FranklinPriorityOp::Deposit(Deposit {
            from: addr(0x01),
            token,
            amount,
            to,
        }),
        deadline_block: 100,
        eth_hash: vec![0; 32],
        eth_block: 1,
    }
}

fn change_pubkey_tx(account_id: u32, account: Vec<u8>, new_pk_hash: Vec<u8>, nonce: u32) -> FranklinTx {
    FranklinTx::ChangePubKey(Box::new(ChangePubKey {
        account_id,
        account,
        new_pk_hash,
        fee_token: 0,
        fee: 0,
        nonce,
        change_pubkey_type: ChangePubKeyType::OnchainTransaction,
    }))
}

fn withdraw_tx(from: Vec<u8>, signer: Vec<u8>, nonce: u32, amount: u128, fee: u128) -> FranklinTx {
    FranklinTx::Withdraw(Box::new(Withdraw {
        from,
        to: addr(0xEE),
        token: 0,
        amount,
        fee,
        nonce,
        signer_pub_key_hash: signer,
    }))
}

/// A priority op whose serial id equals the watermark applies and advances
/// the watermark by one.
#[test]
fn priority_op_at_watermark_applies() {
    let mut keeper = keeper(ApplyOrdering::PriorityOpsFirst);
    for serial in 0..5 {
        let batch = ProposedBlock {
            priority_ops: vec![deposit_op(serial, addr(0x10), 0, 100)],
            txs: vec![],
        };
        let leftover = keeper.execute_proposed_block(batch, 1000).unwrap();
        assert!(leftover.priority_ops.is_empty());
    }
    assert_eq!(keeper.current_unprocessed_priority_op, 5);

    // Serial 5 at watermark 5: applied, watermark advances to 6.
    let batch = ProposedBlock {
        priority_ops: vec![deposit_op(5, addr(0x10), 0, 100)],
        txs: vec![],
    };
    keeper.execute_proposed_block(batch, 1000).unwrap();
    assert_eq!(keeper.current_unprocessed_priority_op, 6);
    // The deposited account accumulated every credit.
    let (id, account) = keeper.get_account(&addr(0x10)).unwrap();
    assert_eq!(id, 1);
    assert_eq!(account.get_balance(0), 600);
}

/// The same serial id arriving when the watermark has moved past it is a
/// fatal protocol violation and changes nothing.
#[test]
fn priority_op_behind_watermark_is_fatal() {
    let mut keeper = keeper(ApplyOrdering::PriorityOpsFirst);
    for serial in 0..7 {
        let batch = ProposedBlock {
            priority_ops: vec![deposit_op(serial, addr(0x10), 0, 100)],
            txs: vec![],
        };
        keeper.execute_proposed_block(batch, 1000).unwrap();
    }
    assert_eq!(keeper.current_unprocessed_priority_op, 7);

    let batch = ProposedBlock {
        priority_ops: vec![deposit_op(5, addr(0x10), 0, 100)],
        txs: vec![],
    };
    let err = keeper.execute_proposed_block(batch, 1000).unwrap_err();
    assert_eq!(
        err,
        ProtocolError::PriorityOpSerialMismatch { expected: 7, found: 5 }
    );
    // Nothing changed.
    assert_eq!(keeper.current_unprocessed_priority_op, 7);
    let (_, account) = keeper.get_account(&addr(0x10)).unwrap();
    assert_eq!(account.get_balance(0), 700);
}

/// With a withdrawal cap of two, the third withdrawal of a block is
/// deferred, not rejected, and applies in the next block.
#[test]
fn withdrawal_cap_defers_excess() {
    let mut keeper = keeper(ApplyOrdering::PriorityOpsFirst);
    // Fund an account and register its key.
    let batch = ProposedBlock {
        priority_ops: vec![deposit_op(0, addr(0x10), 0, 1_000_000)],
        txs: vec![change_pubkey_tx(1, addr(0x10), addr(0xCC), 0)],
    };
    let leftover = keeper.execute_proposed_block(batch, 1000).unwrap();
    assert!(leftover.txs.is_empty());

    // Submit cap + 1 withdrawals: exactly cap apply, the extra one comes
    // back deferred.
    let batch = ProposedBlock {
        priority_ops: vec![],
        txs: vec![
            withdraw_tx(addr(0x10), addr(0xCC), 1, 100, 0),
            withdraw_tx(addr(0x10), addr(0xCC), 2, 100, 0),
            withdraw_tx(addr(0x10), addr(0xCC), 3, 100, 0),
        ],
    };
    let leftover = keeper.execute_proposed_block(batch, 1000).unwrap();
    assert_eq!(leftover.txs.len(), 1);
    assert_eq!(keeper.withdrawals_in_block, 2);
    let (_, account) = keeper.get_account(&addr(0x10)).unwrap();
    assert_eq!(account.nonce, 3);

    // After sealing, the deferred withdrawal is still a valid candidate
    // and applies in the next block.
    let _block = keeper.seal_pending_block(vec![0u8; 32], 2000);
    let retry = ProposedBlock { priority_ops: vec![], txs: leftover.txs };
    let leftover = keeper.execute_proposed_block(retry, 2000).unwrap();
    assert!(leftover.txs.is_empty());
    let (_, account) = keeper.get_account(&addr(0x10)).unwrap();
    assert_eq!(account.nonce, 4);
    assert_eq!(account.get_balance(0), 999_700);
}

/// Both configured orderings process a batch; priority operations always
/// advance the watermark.
#[test]
fn both_orderings_process_batches() {
    for ordering in [ApplyOrdering::PriorityOpsFirst, ApplyOrdering::TransactionsFirst] {
        let mut keeper = keeper(ordering);
        let batch = ProposedBlock {
            priority_ops: vec![deposit_op(0, addr(0x10), 0, 500)],
            txs: vec![change_pubkey_tx(1, addr(0x10), addr(0xCC), 0)],
        };
        let leftover = keeper.execute_proposed_block(batch, 1000).unwrap();
        assert!(leftover.priority_ops.is_empty());
        assert_eq!(keeper.current_unprocessed_priority_op, 1);
        let (_, account) = keeper.get_account(&addr(0x10)).unwrap();
        assert_eq!(account.get_balance(0), 500);
        match ordering {
            // Priority ops first: the account exists when the key change
            // is validated, so it applies.
            ApplyOrdering::PriorityOpsFirst => assert_eq!(account.nonce, 1),
            // Transactions first: the key change sees no account yet and
            // is recorded as failed.
            ApplyOrdering::TransactionsFirst => assert_eq!(account.nonce, 0),
        }
    }
}

/// Sealing an empty pending block succeeds and selects the smallest
/// configured size class.
#[test]
fn seal_empty_block_uses_smallest_class() {
    let mut keeper = keeper(ApplyOrdering::PriorityOpsFirst);
    let block = keeper.seal_pending_block(vec![0u8; 32], 2000);
    assert_eq!(block.block_number, 1);
    assert_eq!(block.block_chunks_size, 10);
    assert!(block.block_transactions.is_empty());
    assert_eq!(block.processed_priority_ops, (0, 0));
    // The next pending block follows on.
    assert_eq!(keeper.pending_block().number, 2);
}

/// The smallest sufficient size class is chosen: 47 chunks used with
/// classes [10, 50, 100] selects 50.
#[test]
fn size_class_selection() {
    assert_eq!(smallest_block_size_for_chunks(47, &[10, 50, 100]), 50);
    assert_eq!(smallest_block_size_for_chunks(0, &[10, 50, 100]), 10);
    assert_eq!(smallest_block_size_for_chunks(10, &[10, 50, 100]), 10);
    assert_eq!(smallest_block_size_for_chunks(51, &[10, 50, 100]), 100);
}

/// A successful nonce-bearing operation advances the account's nonce by
/// exactly one per success; failures leave it alone.
#[test]
fn nonce_advances_with_successes() {
    let mut keeper = keeper(ApplyOrdering::PriorityOpsFirst);
    let batch = ProposedBlock {
        priority_ops: vec![deposit_op(0, addr(0x10), 0, 1_000_000)],
        txs: vec![
            change_pubkey_tx(1, addr(0x10), addr(0xCC), 0),
            // Wrong nonce: recorded as failed, nonce untouched.
            withdraw_tx(addr(0x10), addr(0xCC), 5, 100, 0),
            // Right nonce: applied.
            withdraw_tx(addr(0x10), addr(0xCC), 1, 100, 0),
        ],
    };
    let leftover = keeper.execute_proposed_block(batch, 1000).unwrap();
    assert!(leftover.txs.is_empty());
    let (_, account) = keeper.get_account(&addr(0x10)).unwrap();
    assert_eq!(account.nonce, 2);
    assert_eq!(account.get_balance(0), 999_900);
    // One priority record and three transaction records, in order.
    assert_eq!(keeper.pending_block().success_operations.len(), 4);
    match &keeper.pending_block().success_operations[2] {
        ExecutedOperations::Tx(et) => {
            assert!(!et.success);
            assert!(et.op.is_none());
        }
        _ => panic!("expected a transaction record"),
    }
}
