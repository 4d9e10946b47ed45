//! Append-only stores for persisted operation records.
//!
//! This is the storage collaborator's contract, kept as verified in-memory
//! state: executed-transaction records are keyed by transaction hash,
//! executed-priority-operation records by serial id. Both are append-only;
//! inserting a record under an existing key is a silent no-op, never an
//! error, so at most one row is ever retrievable per key.

use vstd::prelude::*;
use crate::bytes::bytes_eq;

verus! {

/// The action a block-level operation row records.
#[allow(non_camel_case_types)]
#[derive(Clone, Copy, Debug, PartialEq, Eq, Structural)]
pub enum ActionType {
    COMMIT,
    VERIFY,
}

/// A block-action row to insert.
#[derive(Clone, Debug, PartialEq)]
pub struct NewOperation {
    pub block_number: i64,
    pub action_type: ActionType,
}

/// A stored block-action row.
#[derive(Clone, Debug, PartialEq)]
pub struct StoredOperation {
    pub id: i64,
    pub block_number: i64,
    pub action_type: ActionType,
    pub confirmed: bool,
}

/// An executed-transaction record, keyed by `tx_hash`.
#[derive(Clone, Debug, PartialEq)]
pub struct NewExecutedTransaction {
    pub block_number: i64,
    pub tx_hash: Vec<u8>,
    pub tx: String,
    pub operation: String,
    pub from_account: Vec<u8>,
    pub to_account: Option<Vec<u8>>,
    pub success: bool,
    pub fail_reason: Option<String>,
    pub block_index: Option<i32>,
    pub primary_account_address: Vec<u8>,
    pub nonce: i64,
    pub created_at: u64,
    pub eth_sign_data: Option<String>,
}

/// An executed-priority-operation record, keyed by `priority_op_serialid`.
#[derive(Clone, Debug, PartialEq)]
pub struct NewExecutedPriorityOperation {
    pub block_number: i64,
    pub block_index: i64,
    pub operation: String,
    pub from_account: Vec<u8>,
    pub to_account: Vec<u8>,
    pub priority_op_serialid: i64,
    pub deadline_block: i64,
    pub eth_hash: Vec<u8>,
    pub eth_block: i64,
    pub created_at: u64,
}

/// A mempool row as persisted by the storage collaborator.
#[derive(Clone, Debug, PartialEq)]
pub struct MempoolTx {
    pub id: i64,
    pub tx_hash: String,
    pub tx: String,
    pub created_at: u64,
    pub eth_sign_data: Option<String>,
    pub batch_id: Option<i64>,
}

/// A mempool row to insert.
#[derive(Clone, Debug, PartialEq)]
pub struct NewMempoolTx {
    pub tx_hash: String,
    pub tx: String,
    pub created_at: u64,
    pub eth_sign_data: Option<String>,
    pub batch_id: Option<i64>,
}

/// Whether a transaction hash already has a row.
pub open spec fn tx_hash_present(recs: Seq<NewExecutedTransaction>, h: Seq<u8>) -> bool {
    exists|i: int| 0 <= i < recs.len() && (#[trigger] recs[i]).tx_hash@ == h
}

/// The append-only insert: a duplicate key changes nothing.
pub open spec fn spec_store_tx(
    recs: Seq<NewExecutedTransaction>,
    rec: NewExecutedTransaction,
) -> Seq<NewExecutedTransaction> {
    if tx_hash_present(recs, rec.tx_hash@) {
        recs
    } else {
        recs.push(rec)
    }
}

/// Whether a serial id already has a row.
pub open spec fn serial_present(recs: Seq<NewExecutedPriorityOperation>, serial: i64) -> bool {
    exists|i: int| 0 <= i < recs.len() && (#[trigger] recs[i]).priority_op_serialid == serial
}

/// The append-only insert: a duplicate key changes nothing.
pub open spec fn spec_store_priority(
    recs: Seq<NewExecutedPriorityOperation>,
    rec: NewExecutedPriorityOperation,
) -> Seq<NewExecutedPriorityOperation> {
    if serial_present(recs, rec.priority_op_serialid) {
        recs
    } else {
        recs.push(rec)
    }
}

/// The first row with the given hash, searching from `i`.
pub open spec fn find_tx_from(recs: Seq<NewExecutedTransaction>, h: Seq<u8>, i: nat) -> Option<
    nat,
>
    decreases recs.len() - i,
{
    if i >= recs.len() {
        None
    } else if recs[i as int].tx_hash@ == h {
        Some(i)
    } else {
        find_tx_from(recs, h, i + 1)
    }
}

/// The first row with the given serial id, searching from `i`.
pub open spec fn find_serial_from(
    recs: Seq<NewExecutedPriorityOperation>,
    serial: i64,
    i: nat,
) -> Option<nat>
    decreases recs.len() - i,
{
    if i >= recs.len() {
        None
    } else if recs[i as int].priority_op_serialid == serial {
        Some(i)
    } else {
        find_serial_from(recs, serial, i + 1)
    }
}

/// Inserting under the same key twice equals inserting once: exactly one
/// retrievable row, and no error either time.
pub proof fn lemma_store_tx_idempotent(recs: Seq<NewExecutedTransaction>, rec: NewExecutedTransaction)
    ensures
        spec_store_tx(spec_store_tx(recs, rec), rec) == spec_store_tx(recs, rec),
        tx_hash_present(spec_store_tx(recs, rec), rec.tx_hash@),
{
    let once = spec_store_tx(recs, rec);
    if !tx_hash_present(recs, rec.tx_hash@) {
        assert(once[recs.len() as int].tx_hash@ == rec.tx_hash@);
    }
}

/// Inserting under the same serial twice equals inserting once.
pub proof fn lemma_store_priority_idempotent(
    recs: Seq<NewExecutedPriorityOperation>,
    rec: NewExecutedPriorityOperation,
)
    ensures
        spec_store_priority(spec_store_priority(recs, rec), rec) == spec_store_priority(recs, rec),
        serial_present(spec_store_priority(recs, rec), rec.priority_op_serialid),
{
    let once = spec_store_priority(recs, rec);
    if !serial_present(recs, rec.priority_op_serialid) {
        assert(once[recs.len() as int].priority_op_serialid == rec.priority_op_serialid);
    }
}

/// The in-memory form of the storage collaborator's operation tables.
#[derive(Debug)]
pub struct OperationsStore {
    pub operations: Vec<StoredOperation>,
    pub executed_txs: Vec<NewExecutedTransaction>,
    pub executed_priority_ops: Vec<NewExecutedPriorityOperation>,
}

impl OperationsStore {
    pub fn new() -> (r: OperationsStore)
        ensures
            r.operations@.len() == 0,
            r.executed_txs@.len() == 0,
            r.executed_priority_ops@.len() == 0,
    {
        OperationsStore {
            operations: Vec::new(),
            executed_txs: Vec::new(),
            executed_priority_ops: Vec::new(),
        }
    }

    /// Inserts a block-action row, unconfirmed, with the next row id.
    pub fn store_operation(&mut self, op: NewOperation)
        requires
            old(self).operations@.len() < i64::MAX,
        ensures
            final(self).operations@.len() == old(self).operations@.len() + 1,
            final(self).operations@.last() == (StoredOperation {
                id: old(self).operations@.len() as i64,
                block_number: op.block_number,
                action_type: op.action_type,
                confirmed: false,
            }),
            forall|q: int|
                0 <= q < old(self).operations@.len() ==> final(self).operations@[q]
                    == #[trigger] old(self).operations@[q],
            final(self).executed_txs == old(self).executed_txs,
            final(self).executed_priority_ops == old(self).executed_priority_ops,
    {
        let id = self.operations.len() as i64;
        self.operations.push(
            StoredOperation {
                id,
                block_number: op.block_number,
                action_type: op.action_type,
                confirmed: false,
            },
        );
    }

    /// The first block-action row for the block number and action.
    pub fn get_operation(&self, block_number: i64, action_type: ActionType) -> (r: Option<
        &StoredOperation,
    >)
        ensures
            r matches Some(op) ==> ({
                &&& exists|i: int|
                    0 <= i < self.operations@.len() && #[trigger] self.operations@[i] == *op
                &&& op.block_number == block_number
                &&& op.action_type == action_type
            }),
            r is None ==> forall|i: int|
                0 <= i < self.operations@.len() ==> !((#[trigger] self.operations@[i]).block_number
                    == block_number && self.operations@[i].action_type == action_type),
    {
        let n = self.operations.len();
        let mut i: usize = 0;
        while i < n
            invariant
                n == self.operations@.len(),
                i <= n,
                forall|q: int|
                    0 <= q < i ==> !((#[trigger] self.operations@[q]).block_number == block_number
                        && self.operations@[q].action_type == action_type),
            decreases n - i,
        {
            let op = &self.operations[i];
            if op.block_number == block_number && op.action_type == action_type {
                return Some(op);
            }
            i += 1;
        }
        None
    }

    /// Inserts an executed-transaction record; a duplicate hash is a
    /// silent no-op.
    pub fn store_executed_operation(&mut self, rec: NewExecutedTransaction)
        ensures
            final(self).executed_txs@ == spec_store_tx(old(self).executed_txs@, rec),
            final(self).operations == old(self).operations,
            final(self).executed_priority_ops == old(self).executed_priority_ops,
    {
        let n = self.executed_txs.len();
        let mut i: usize = 0;
        while i < n
            invariant
                n == self.executed_txs@.len(),
                i <= n,
                forall|q: int|
                    0 <= q < i ==> (#[trigger] self.executed_txs@[q]).tx_hash@ != rec.tx_hash@,
            decreases n - i,
        {
            if bytes_eq(self.executed_txs[i].tx_hash.as_slice(), rec.tx_hash.as_slice()) {
                assert(tx_hash_present(self.executed_txs@, rec.tx_hash@));
                return;
            }
            i += 1;
        }
        assert(!tx_hash_present(self.executed_txs@, rec.tx_hash@));
        self.executed_txs.push(rec);
    }

    /// The row with the given transaction hash, if any.
    pub fn get_executed_operation(&self, tx_hash: &[u8]) -> (r: Option<&NewExecutedTransaction>)
        ensures
            r is Some <==> tx_hash_present(self.executed_txs@, tx_hash@),
            r matches Some(rec) ==> ({
                &&& find_tx_from(self.executed_txs@, tx_hash@, 0) matches Some(i) && *rec
                    == self.executed_txs@[i as int]
                &&& rec.tx_hash@ == tx_hash@
            }),
    {
        let n = self.executed_txs.len();
        let mut i: usize = 0;
        while i < n
            invariant
                n == self.executed_txs@.len(),
                i <= n,
                forall|q: int|
                    0 <= q < i ==> (#[trigger] self.executed_txs@[q]).tx_hash@ != tx_hash@,
                find_tx_from(self.executed_txs@, tx_hash@, 0) == find_tx_from(
                    self.executed_txs@,
                    tx_hash@,
                    i as nat,
                ),
            decreases n - i,
        {
            if bytes_eq(self.executed_txs[i].tx_hash.as_slice(), tx_hash) {
                return Some(&self.executed_txs[i]);
            }
            i += 1;
        }
        assert(forall|q: int|
            0 <= q < self.executed_txs@.len() ==> (#[trigger] self.executed_txs@[q]).tx_hash@
                != tx_hash@);
        None
    }

    /// Inserts an executed-priority-operation record; a duplicate serial id
    /// is a silent no-op.
    pub fn store_executed_priority_operation(&mut self, rec: NewExecutedPriorityOperation)
        ensures
            final(self).executed_priority_ops@ == spec_store_priority(
                old(self).executed_priority_ops@,
                rec,
            ),
            final(self).operations == old(self).operations,
            final(self).executed_txs == old(self).executed_txs,
    {
        let n = self.executed_priority_ops.len();
        let mut i: usize = 0;
        while i < n
            invariant
                n == self.executed_priority_ops@.len(),
                i <= n,
                forall|q: int|
                    0 <= q < i ==> (#[trigger] self.executed_priority_ops@[q]).priority_op_serialid
                        != rec.priority_op_serialid,
            decreases n - i,
        {
            if self.executed_priority_ops[i].priority_op_serialid == rec.priority_op_serialid {
                assert(serial_present(self.executed_priority_ops@, rec.priority_op_serialid));
                return;
            }
            i += 1;
        }
        assert(!serial_present(self.executed_priority_ops@, rec.priority_op_serialid));
        self.executed_priority_ops.push(rec);
    }

    /// The row with the given serial id, if any.
    pub fn get_executed_priority_operation(&self, serial: u32) -> (r: Option<
        &NewExecutedPriorityOperation,
    >)
        ensures
            r is Some <==> serial_present(self.executed_priority_ops@, serial as i64),
            r matches Some(rec) ==> ({
                &&& find_serial_from(self.executed_priority_ops@, serial as i64, 0) matches Some(i)
                    && *rec == self.executed_priority_ops@[i as int]
                &&& rec.priority_op_serialid == serial as i64
            }),
    {
        let n = self.executed_priority_ops.len();
        let mut i: usize = 0;
        while i < n
            invariant
                n == self.executed_priority_ops@.len(),
                i <= n,
                forall|q: int|
                    0 <= q < i ==> (#[trigger] self.executed_priority_ops@[q]).priority_op_serialid
                        != serial as i64,
                find_serial_from(self.executed_priority_ops@, serial as i64, 0) == find_serial_from(
                    self.executed_priority_ops@,
                    serial as i64,
                    i as nat,
                ),
            decreases n - i,
        {
            if self.executed_priority_ops[i].priority_op_serialid == (serial as i64) {
                return Some(&self.executed_priority_ops[i]);
            }
            i += 1;
        }
        assert(forall|q: int|
            0 <= q < self.executed_priority_ops@.len() ==> (
            #[trigger] self.executed_priority_ops@[q]).priority_op_serialid != serial as i64);
        None
    }

    /// How many executed-operation rows a block holds, transactions and
    /// priority operations together.
    pub fn count_block_transactions(&self, block_number: i64) -> (r: usize)
        requires
            self.executed_txs@.len() + self.executed_priority_ops@.len() <= usize::MAX,
        ensures
            r as nat == count_tx_rows(self.executed_txs@, block_number) + count_priority_rows(
                self.executed_priority_ops@,
                block_number,
            ),
    {
        let mut count: usize = 0;
        let n = self.executed_txs.len();
        let mut i: usize = 0;
        proof {
            assert(self.executed_txs@.subrange(0, 0) =~= Seq::empty());
            lemma_count_tx_rows_bound(self.executed_txs@, block_number);
        }
        while i < n
            invariant
                n == self.executed_txs@.len(),
                i <= n,
                count as nat == count_tx_rows(self.executed_txs@.subrange(0, i as int), block_number),
                count <= i,
            decreases n - i,
        {
            proof {
                assert(self.executed_txs@.subrange(0, i + 1 as int).drop_last()
                    =~= self.executed_txs@.subrange(0, i as int));
                assert(self.executed_txs@.subrange(0, i + 1 as int).last()
                    == self.executed_txs@[i as int]);
                lemma_count_tx_rows_bound(self.executed_txs@.subrange(0, i + 1 as int), block_number);
            }
            if self.executed_txs[i].block_number == block_number {
                count = count + 1;
            }
            i += 1;
        }
        proof {
            assert(self.executed_txs@.subrange(0, n as int) =~= self.executed_txs@);
        }
        let m = self.executed_priority_ops.len();
        let mut j: usize = 0;
        proof {
            assert(self.executed_priority_ops@.subrange(0, 0) =~= Seq::empty());
        }
        while j < m
            invariant
                m == self.executed_priority_ops@.len(),
                n == self.executed_txs@.len(),
                n + m <= usize::MAX,
                j <= m,
                count as nat == count_tx_rows(self.executed_txs@, block_number)
                    + count_priority_rows(
                    self.executed_priority_ops@.subrange(0, j as int),
                    block_number,
                ),
                count <= n + j,
            decreases m - j,
        {
            proof {
                assert(self.executed_priority_ops@.subrange(0, j + 1 as int).drop_last()
                    =~= self.executed_priority_ops@.subrange(0, j as int));
                assert(self.executed_priority_ops@.subrange(0, j + 1 as int).last()
                    == self.executed_priority_ops@[j as int]);
                lemma_count_tx_rows_bound(self.executed_txs@, block_number);
                lemma_count_priority_rows_bound(
                    self.executed_priority_ops@.subrange(0, j + 1 as int),
                    block_number,
                );
            }
            if self.executed_priority_ops[j].block_number == block_number {
                count = count + 1;
            }
            j += 1;
        }
        proof {
            assert(self.executed_priority_ops@.subrange(0, m as int)
                =~= self.executed_priority_ops@);
        }
        count
    }
}

/// How many transaction rows a block holds.
pub open spec fn count_tx_rows(recs: Seq<NewExecutedTransaction>, block_number: i64) -> nat
    decreases recs.len(),
{
    if recs.len() == 0 {
        0
    } else {
        count_tx_rows(recs.drop_last(), block_number) + if recs.last().block_number
            == block_number {
            1nat
        } else {
            0nat
        }
    }
}

/// How many priority rows a block holds.
pub open spec fn count_priority_rows(
    recs: Seq<NewExecutedPriorityOperation>,
    block_number: i64,
) -> nat
    decreases recs.len(),
{
    if recs.len() == 0 {
        0
    } else {
        count_priority_rows(recs.drop_last(), block_number) + if recs.last().block_number
            == block_number {
            1nat
        } else {
            0nat
        }
    }
}

proof fn lemma_count_tx_rows_bound(recs: Seq<NewExecutedTransaction>, block_number: i64)
    ensures
        count_tx_rows(recs, block_number) <= recs.len(),
    decreases recs.len(),
{
    if recs.len() > 0 {
        lemma_count_tx_rows_bound(recs.drop_last(), block_number);
    }
}

proof fn lemma_count_priority_rows_bound(
    recs: Seq<NewExecutedPriorityOperation>,
    block_number: i64,
)
    ensures
        count_priority_rows(recs, block_number) <= recs.len(),
    decreases recs.len(),
{
    if recs.len() > 0 {
        lemma_count_priority_rows_bound(recs.drop_last(), block_number);
    }
}

} // verus!
