//! Save-and-load behaviour of the operation record stores.

use rollup_engine::records::{
    ActionType, NewExecutedPriorityOperation, NewExecutedTransaction, NewOperation,
    OperationsStore,
};

fn sample_executed_tx(tx_hash: Vec<u8>, block_number: i64) -> NewExecutedTransaction {
    NewExecutedTransaction {
        block_number,
        tx_hash,
        tx: String::new(),
        operation: String::new(),
        from_account: Vec::new(),
        to_account: None,
        success: true,
        fail_reason: None,
        block_index: None,
        primary_account_address: Vec::new(),
        nonce: 0,
        created_at: 0,
        eth_sign_data: None,
    }
}

/// Checks the save&load routine for unconfirmed operations.
#[test]
fn operations() {
    let mut store = OperationsStore::new();
    let block_number = 1;
    let action_type = ActionType::COMMIT;
    store.store_operation(NewOperation { block_number, action_type });

    let stored_operation = store
        .get_operation(block_number, action_type)
        .expect("Can't get the operation");

    assert_eq!(stored_operation.block_number, 1);
    assert_eq!(stored_operation.action_type, action_type);
    assert_eq!(stored_operation.confirmed, false);
}

/// Checks the save&load routine for executed operations.
#[test]
fn executed_operations() {
    let mut store = OperationsStore::new();
    let executed_tx = sample_executed_tx(vec![0xDE, 0xAD, 0xBE, 0xEF], 1);

    store.store_executed_operation(executed_tx.clone());

    let stored_operation = store
        .get_executed_operation(executed_tx.tx_hash.as_ref())
        .expect("No operation was found for a valid hash");

    assert_eq!(stored_operation.block_number, executed_tx.block_number);
    assert_eq!(stored_operation.tx_hash, executed_tx.tx_hash);
    assert_eq!(stored_operation.tx, executed_tx.tx);
    assert_eq!(stored_operation.operation, executed_tx.operation);
    assert_eq!(stored_operation.from_account, executed_tx.from_account);
    assert_eq!(stored_operation.to_account, executed_tx.to_account);
    assert_eq!(stored_operation.success, executed_tx.success);
    assert_eq!(stored_operation.fail_reason, executed_tx.fail_reason);
    assert_eq!(stored_operation.block_index, executed_tx.block_index);
    assert_eq!(stored_operation.nonce, executed_tx.nonce);
    assert_eq!(
        stored_operation.primary_account_address,
        executed_tx.primary_account_address
    );
}

/// Checks the save&load routine for executed priority operations.
#[test]
fn executed_priority_operations() {
    let mut store = OperationsStore::new();
    let executed_tx = NewExecutedPriorityOperation {
        block_number: 1,
        block_index: 1,
        operation: String::new(),
        from_account: Vec::new(),
        to_account: Vec::new(),
        priority_op_serialid: 0,
        deadline_block: 100,
        eth_hash: vec![0xDE, 0xAD, 0xBE, 0xEF],
        eth_block: 10,
        created_at: 0,
    };
    store.store_executed_priority_operation(executed_tx.clone());

    let stored_operation = store
        .get_executed_priority_operation(executed_tx.priority_op_serialid as u32)
        .expect("No operation was found for a valid hash");

    assert_eq!(stored_operation.block_number, executed_tx.block_number);
    assert_eq!(stored_operation.block_index, executed_tx.block_index);
    assert_eq!(stored_operation.operation, executed_tx.operation);
    assert_eq!(stored_operation.from_account, executed_tx.from_account);
    assert_eq!(stored_operation.to_account, executed_tx.to_account);
    assert_eq!(
        stored_operation.priority_op_serialid,
        executed_tx.priority_op_serialid
    );
    assert_eq!(stored_operation.deadline_block, executed_tx.deadline_block);
    assert_eq!(stored_operation.eth_hash, executed_tx.eth_hash);
}

/// Checks that an attempt to save duplicate records is silently ignored.
#[test]
fn duplicated_operations() {
    const BLOCK_NUMBER: i64 = 1;

    let executed_tx = sample_executed_tx(vec![0x12, 0xAD, 0xBE, 0xEF], BLOCK_NUMBER);

    let executed_priority_op = NewExecutedPriorityOperation {
        block_number: BLOCK_NUMBER,
        block_index: 1,
        operation: String::new(),
        from_account: Vec::new(),
        to_account: Vec::new(),
        priority_op_serialid: 0,
        deadline_block: 100,
        eth_hash: vec![0xDE, 0xAD, 0xBE, 0xEF],
        eth_block: 10,
        created_at: 0,
    };

    let mut store = OperationsStore::new();

    // Save the same operations twice.
    store.store_executed_operation(executed_tx.clone());
    store.store_executed_operation(executed_tx.clone());
    store.store_executed_priority_operation(executed_priority_op.clone());
    store.store_executed_priority_operation(executed_priority_op.clone());

    // Check that we can still load them.
    assert!(store
        .get_executed_operation(executed_tx.tx_hash.as_ref())
        .is_some());
    assert!(store
        .get_executed_priority_operation(executed_priority_op.priority_op_serialid as u32)
        .is_some());

    // The block holds exactly the two rows.
    assert_eq!(store.count_block_transactions(BLOCK_NUMBER), 2);
}

/// A duplicate insert leaves exactly one retrievable row per key.
#[test]
fn duplicated_insert_keeps_one_row() {
    let mut store = OperationsStore::new();
    let rec = sample_executed_tx(vec![1, 2, 3], 7);
    store.store_executed_operation(rec.clone());
    store.store_executed_operation(rec.clone());
    assert_eq!(store.executed_txs.len(), 1);
    let found = store.get_executed_operation(&[1, 2, 3]).unwrap();
    assert_eq!(found.block_number, 7);
}
