//! Executed operations, pending and sealed blocks, and block assembly.
//!
//! A block accumulates executed operations in order. Its public data is the
//! concatenation of each materialized operation's fixed-width encoding,
//! zero-padded to the chosen size class; witness and withdrawal blobs are
//! side channels assembled in the same order. Failed transactions are
//! recorded but contribute no chunks and no bytes.

use vstd::prelude::*;
use crate::bytes::push_bytes;
use crate::operations::{
    op_chunks, op_pubdata, op_wf, op_withdrawal_data, op_witness, FranklinOp,
};
use crate::params::{CHUNK_BYTES, ROOT_HASH_BYTES};
use crate::tx::{AccountId, BlockNumber, FranklinTx, PriorityOp};

verus! {

/// Why a transaction failed domain validation. The failure is recorded and
/// final; it does not affect other operations of the same batch.
#[derive(Clone, Copy, Debug, PartialEq, Eq)]
pub enum TxFailReason {
    /// The transaction's nonce is not the account's next nonce.
    NonceMismatch,
    /// The spending account holds too little balance for amount plus fee.
    InsufficientBalance,
    /// The signer's key hash does not match the account's registered key.
    InvalidSignature,
    /// The token identifier is outside the configured token set.
    UnknownToken,
    /// No account matches the transaction's sender.
    AccountNotFound,
    /// A field has the wrong width, or an on-chain-packed amount is not
    /// packable.
    MalformedTx,
}

/// A recorded L2 transaction outcome: applied or failed, never retried.
#[derive(Clone, Debug, PartialEq)]
pub struct ExecutedTx {
    pub tx: FranklinTx,
    pub success: bool,
    pub op: Option<FranklinOp>,
    pub fail_reason: Option<TxFailReason>,
    pub block_index: Option<u32>,
    pub created_at: u64,
}

/// A recorded priority-operation outcome; priority operations always
/// materialize an operation.
#[derive(Clone, Debug, PartialEq)]
pub struct ExecutedPriorityOp {
    pub priority_op: PriorityOp,
    pub op: FranklinOp,
    pub block_index: u32,
    pub created_at: u64,
}

/// One recorded executed operation of a block.
#[derive(Clone, Debug, PartialEq)]
pub enum ExecutedOperations {
    Tx(Box<ExecutedTx>),
    PriorityOp(Box<ExecutedPriorityOp>),
}

/// The operation a record materialized: present for every priority
/// operation and every successful transaction.
pub open spec fn executed_op_of(e: ExecutedOperations) -> Option<FranklinOp> {
    match e {
        ExecutedOperations::Tx(t) => t.op,
        ExecutedOperations::PriorityOp(p) => Some(p.op),
    }
}

/// A record is well-formed when its materialized operation (if any) is, and
/// a transaction record is consistent: an operation and no fail reason
/// exactly on success.
pub open spec fn executed_wf(e: ExecutedOperations) -> bool {
    match e {
        ExecutedOperations::Tx(t) => {
            &&& (t.success <==> t.op is Some)
            &&& (t.success <==> t.fail_reason is None)
            &&& (t.op matches Some(op) ==> op_wf(op))
        },
        ExecutedOperations::PriorityOp(p) => op_wf(p.op),
    }
}

pub open spec fn ops_wf(ops: Seq<ExecutedOperations>) -> bool {
    forall|i: int| 0 <= i < ops.len() ==> executed_wf(#[trigger] ops[i])
}

/// The chunk cost of one record: its operation's cost, or zero for a failed
/// transaction.
pub open spec fn executed_chunks(e: ExecutedOperations) -> nat {
    match executed_op_of(e) {
        Some(op) => op_chunks(op),
        None => 0,
    }
}

/// Total chunks used by a list of records.
pub open spec fn chunks_used_spec(ops: Seq<ExecutedOperations>) -> nat
    decreases ops.len(),
{
    if ops.len() == 0 {
        0
    } else {
        chunks_used_spec(ops.drop_last()) + executed_chunks(ops.last())
    }
}

/// The concatenated public data of a list of records, unpadded.
pub open spec fn eth_public_data_spec(ops: Seq<ExecutedOperations>) -> Seq<u8>
    decreases ops.len(),
{
    if ops.len() == 0 {
        Seq::empty()
    } else {
        eth_public_data_spec(ops.drop_last()) + (match executed_op_of(ops.last()) {
            Some(op) => op_pubdata(op),
            None => Seq::empty(),
        })
    }
}

/// The witness bytes one record contributes.
pub open spec fn executed_witness(e: ExecutedOperations) -> Seq<u8> {
    match executed_op_of(e) {
        Some(op) => match op_witness(op) {
            Some(w) => w,
            None => Seq::empty(),
        },
        None => Seq::empty(),
    }
}

/// The concatenated witness bytes of a list of records.
pub open spec fn eth_witness_spec(ops: Seq<ExecutedOperations>) -> Seq<u8>
    decreases ops.len(),
{
    if ops.len() == 0 {
        Seq::empty()
    } else {
        eth_witness_spec(ops.drop_last()) + executed_witness(ops.last())
    }
}

/// The per-operation witness lengths, one entry per operation that declares
/// witness material, in execution order.
pub open spec fn eth_witness_lens_spec(ops: Seq<ExecutedOperations>) -> Seq<u64>
    decreases ops.len(),
{
    if ops.len() == 0 {
        Seq::empty()
    } else {
        eth_witness_lens_spec(ops.drop_last()) + (match executed_op_of(ops.last()) {
            Some(op) => match op_witness(op) {
                Some(w) => seq![w.len() as u64],
                None => Seq::empty(),
            },
            None => Seq::empty(),
        })
    }
}

/// The concatenated fixed-width withdrawal records of a list of records.
pub open spec fn withdrawals_data_spec(ops: Seq<ExecutedOperations>) -> Seq<u8>
    decreases ops.len(),
{
    if ops.len() == 0 {
        Seq::empty()
    } else {
        withdrawals_data_spec(ops.drop_last()) + (match executed_op_of(ops.last()) {
            Some(op) => match op_withdrawal_data(op) {
                Some(w) => w,
                None => Seq::empty(),
            },
            None => Seq::empty(),
        })
    }
}

impl ExecutedOperations {
    /// The operation this record materialized, if any.
    pub fn get_executed_op(&self) -> (r: Option<&FranklinOp>)
        ensures
            r matches Some(op) ==> executed_op_of(*self) == Some(*op),
            r is None ==> executed_op_of(*self) is None,
    {
        match self {
            ExecutedOperations::Tx(exec_tx) => {
                match &exec_tx.op {
                    Some(op) => Some(op),
                    None => None,
                }
            },
            ExecutedOperations::PriorityOp(exec_op) => Some(&exec_op.op),
        }
    }

    /// The transaction record, for transaction outcomes.
    pub fn get_executed_tx(&self) -> (r: Option<&ExecutedTx>)
        ensures
            match r {
                Some(t) => *self matches ExecutedOperations::Tx(bt) && *t == *bt,
                None => *self is PriorityOp,
            },
    {
        match self {
            ExecutedOperations::Tx(exec_tx) => Some(exec_tx),
            ExecutedOperations::PriorityOp(_) => None,
        }
    }

    /// The public data this record contributes: its operation's encoding,
    /// or nothing for a failed transaction.
    pub fn get_eth_public_data(&self) -> (r: Vec<u8>)
        requires
            executed_wf(*self),
        ensures
            r@ == (match executed_op_of(*self) {
                Some(op) => op_pubdata(op),
                None => Seq::<u8>::empty(),
            }),
    {
        match self.get_executed_op() {
            Some(op) => op.public_data(),
            None => {
                let r: Vec<u8> = Vec::new();
                assert(r@ =~= Seq::<u8>::empty());
                r
            },
        }
    }

    /// The witness bytes of this record's operation: `None` for a failed
    /// transaction, the (possibly empty) witness otherwise.
    pub fn get_eth_witness_bytes(&self) -> (r: Option<Vec<u8>>)
        ensures
            r is Some <==> executed_op_of(*self) is Some,
            r matches Some(w) ==> w@ == executed_witness(*self),
    {
        match self.get_executed_op() {
            Some(op) => {
                match op.eth_witness() {
                    Some(w) => Some(w),
                    None => {
                        let r: Vec<u8> = Vec::new();
                        assert(r@ =~= Seq::<u8>::empty());
                        Some(r)
                    },
                }
            },
            None => None,
        }
    }
}

/// The in-progress accumulation of operations for the next block number.
///
/// `success_operations` holds every recorded operation of the block in
/// execution order; failed transactions are recorded there too, at zero
/// chunk cost.
#[derive(Clone, Debug)]
pub struct PendingBlock {
    pub number: BlockNumber,
    pub chunks_left: usize,
    pub unprocessed_priority_op_before: u64,
    pub pending_block_iteration: usize,
    pub success_operations: Vec<ExecutedOperations>,
    pub block_timestamp: u64,
}

/// A sealed, immutable block.
#[derive(Debug)]
pub struct Block {
    pub block_number: BlockNumber,
    /// The state root after this block, as 32 big-endian bytes.
    pub new_root_hash: Vec<u8>,
    pub fee_account: AccountId,
    /// Unknown at some moments of processing.
    pub block_timestamp: Option<u64>,
    pub block_transactions: Vec<ExecutedOperations>,
    /// (unprocessed priority-op serial before the block, after the block).
    pub processed_priority_ops: (u64, u64),
    /// The chosen size class; at least `chunks_used`.
    pub block_chunks_size: usize,
    /// Gas limit hint for the commit settlement transaction.
    pub commit_gas_limit: u64,
    /// Gas limit hint for the verify settlement transaction.
    pub verify_gas_limit: u64,
}

impl Clone for Block {
    fn clone(&self) -> (r: Self)
        ensures
            r.block_number == self.block_number,
            r.new_root_hash@ == self.new_root_hash@,
            r.fee_account == self.fee_account,
            r.block_timestamp == self.block_timestamp,
            r.block_transactions@.len() == self.block_transactions@.len(),
            r.processed_priority_ops == self.processed_priority_ops,
            r.block_chunks_size == self.block_chunks_size,
            r.commit_gas_limit == self.commit_gas_limit,
            r.verify_gas_limit == self.verify_gas_limit,
    {
        Block {
            block_number: self.block_number,
            new_root_hash: self.new_root_hash.clone(),
            fee_account: self.fee_account,
            block_timestamp: self.block_timestamp,
            block_transactions: self.block_transactions.clone(),
            processed_priority_ops: (self.processed_priority_ops.0, self.processed_priority_ops.1),
            block_chunks_size: self.block_chunks_size,
            commit_gas_limit: self.commit_gas_limit,
            verify_gas_limit: self.verify_gas_limit,
        }
    }
}

pub open spec fn block_wf(b: Block) -> bool {
    &&& b.new_root_hash@.len() == ROOT_HASH_BYTES
    &&& ops_wf(b.block_transactions@)
    &&& b.processed_priority_ops.0 <= b.processed_priority_ops.1
    &&& chunks_used_spec(b.block_transactions@) <= b.block_chunks_size
}

/// One more record extends the running chunk total by the record's cost.
pub proof fn lemma_chunks_used_step(ops: Seq<ExecutedOperations>, i: int)
    requires
        0 <= i < ops.len(),
    ensures
        chunks_used_spec(ops.subrange(0, i + 1)) == chunks_used_spec(ops.subrange(0, i))
            + executed_chunks(ops[i]),
{
    assert(ops.subrange(0, i + 1).drop_last() =~= ops.subrange(0, i));
    assert(ops.subrange(0, i + 1).last() == ops[i]);
}

/// A prefix never uses more chunks than the whole list.
pub proof fn lemma_chunks_used_prefix_le(ops: Seq<ExecutedOperations>, i: int)
    requires
        0 <= i <= ops.len(),
    ensures
        chunks_used_spec(ops.subrange(0, i)) <= chunks_used_spec(ops),
    decreases ops.len() - i,
{
    if i == ops.len() {
        assert(ops.subrange(0, i) =~= ops);
    } else {
        lemma_chunks_used_step(ops, i);
        lemma_chunks_used_prefix_le(ops, i + 1);
    }
}

/// The unpadded public data of well-formed records is exactly the used
/// chunks times the chunk width.
pub proof fn lemma_eth_public_data_len(ops: Seq<ExecutedOperations>)
    requires
        ops_wf(ops),
    ensures
        eth_public_data_spec(ops).len() == chunks_used_spec(ops) * CHUNK_BYTES,
    decreases ops.len(),
{
    if ops.len() > 0 {
        assert(ops.drop_last() =~= ops.subrange(0, ops.len() - 1));
        assert(ops_wf(ops.drop_last()));
        lemma_eth_public_data_len(ops.drop_last());
        match executed_op_of(ops.last()) {
            Some(op) => {
                assert(executed_wf(ops.last()));
                crate::operations::lemma_op_pubdata_len(op);
            },
            None => {},
        }
        assert((chunks_used_spec(ops.drop_last()) + executed_chunks(ops.last())) * CHUNK_BYTES
            == chunks_used_spec(ops.drop_last()) * CHUNK_BYTES + executed_chunks(ops.last())
            * CHUNK_BYTES) by (nonlinear_arith);
    }
}

impl Block {
    /// Constructor.
    pub fn new(
        block_number: BlockNumber,
        new_root_hash: Vec<u8>,
        fee_account: AccountId,
        block_timestamp: Option<u64>,
        block_transactions: Vec<ExecutedOperations>,
        processed_priority_ops: (u64, u64),
        block_chunks_size: usize,
        commit_gas_limit: u64,
        verify_gas_limit: u64,
    ) -> (r: Block)
        ensures
            r.block_number == block_number,
            r.new_root_hash == new_root_hash,
            r.fee_account == fee_account,
            r.block_timestamp == block_timestamp,
            r.block_transactions == block_transactions,
            r.processed_priority_ops == processed_priority_ops,
            r.block_chunks_size == block_chunks_size,
            r.commit_gas_limit == commit_gas_limit,
            r.verify_gas_limit == verify_gas_limit,
    {
        Self {
            block_number,
            new_root_hash,
            fee_account,
            block_timestamp,
            block_transactions,
            processed_priority_ops,
            block_chunks_size,
            commit_gas_limit,
            verify_gas_limit,
        }
    }

    /// Constructor that selects the smallest sufficient size class for the
    /// given operations.
    pub fn new_from_availabe_block_sizes(
        block_number: BlockNumber,
        new_root_hash: Vec<u8>,
        fee_account: AccountId,
        block_timestamp: Option<u64>,
        block_transactions: Vec<ExecutedOperations>,
        processed_priority_ops: (u64, u64),
        available_block_chunks_sizes: &[usize],
        commit_gas_limit: u64,
        verify_gas_limit: u64,
    ) -> (r: Block)
        requires
            ops_wf(block_transactions@),
            chunks_used_spec(block_transactions@) <= usize::MAX,
            some_size_fits(chunks_used_spec(block_transactions@), available_block_chunks_sizes@),
        ensures
            r.block_number == block_number,
            r.new_root_hash == new_root_hash,
            r.fee_account == fee_account,
            r.block_timestamp == block_timestamp,
            r.block_transactions == block_transactions,
            r.processed_priority_ops == processed_priority_ops,
            r.block_chunks_size == first_fit_size(
                chunks_used_spec(block_transactions@),
                available_block_chunks_sizes@,
            ),
            chunks_used_spec(r.block_transactions@) <= r.block_chunks_size,
            r.commit_gas_limit == commit_gas_limit,
            r.verify_gas_limit == verify_gas_limit,
    {
        let mut block = Self {
            block_number,
            new_root_hash,
            fee_account,
            block_timestamp,
            block_transactions,
            processed_priority_ops,
            block_chunks_size: 0,
            commit_gas_limit,
            verify_gas_limit,
        };
        block.block_chunks_size = block.smallest_block_size(available_block_chunks_sizes);
        block
    }

    /// The state root in its settlement-layer form: 32 big-endian bytes.
    pub fn get_eth_encoded_root(&self) -> (r: Vec<u8>)
        ensures
            r@ == self.new_root_hash@,
    {
        crate::bytes::slice_to_vec(self.new_root_hash.as_slice())
    }

    /// The byte-exact public-data blob of the block: each materialized
    /// operation's encoding in execution order, zero-padded to the chosen
    /// size class. The settlement contract and the prover both re-derive
    /// this blob independently.
    pub fn get_eth_public_data(&self) -> (r: Vec<u8>)
        requires
            ops_wf(self.block_transactions@),
            chunks_used_spec(self.block_transactions@) <= self.block_chunks_size,
            (self.block_chunks_size as nat) * (CHUNK_BYTES as nat) <= usize::MAX,
        ensures
            r@ == crate::operations::zero_pad(
                eth_public_data_spec(self.block_transactions@),
                (self.block_chunks_size * CHUNK_BYTES) as nat,
            ),
            r@.len() == self.block_chunks_size * CHUNK_BYTES,
    {
        let ops = &self.block_transactions;
        let n = ops.len();
        let mut data: Vec<u8> = Vec::new();
        let mut i: usize = 0;
        proof {
            assert(ops@.subrange(0, 0) =~= Seq::empty());
        }
        while i < n
            invariant
                n == ops@.len(),
                i <= n,
                ops_wf(ops@),
                chunks_used_spec(ops@) <= self.block_chunks_size,
                (self.block_chunks_size as nat) * (CHUNK_BYTES as nat) <= usize::MAX,
                data@ == eth_public_data_spec(ops@.subrange(0, i as int)),
            decreases n - i,
        {
            proof {
                lemma_chunks_used_step(ops@, i as int);
                lemma_chunks_used_prefix_le(ops@, i + 1 as int);
            }
            match ops[i].get_executed_op() {
                Some(op) => {
                    let piece = op.public_data();
                    push_bytes(&mut data, piece.as_slice());
                },
                None => {},
            }
            proof {
                assert(ops@.subrange(0, i + 1 as int).drop_last() =~= ops@.subrange(0, i as int));
                assert(ops@.subrange(0, i + 1 as int).last() == ops@[i as int]);
            }
            i += 1;
        }
        proof {
            assert(ops@.subrange(0, n as int) =~= ops@);
            lemma_eth_public_data_len(ops@);
            assert(chunks_used_spec(ops@) * (CHUNK_BYTES as nat) <= (self.block_chunks_size as nat)
                * (CHUNK_BYTES as nat)) by (nonlinear_arith)
                requires
                    chunks_used_spec(ops@) <= self.block_chunks_size as nat,
            ;
        }
        // Pad the block with zero chunks up to the size class.
        let pad = self.block_chunks_size * CHUNK_BYTES - data.len();
        crate::bytes::push_zeros(&mut data, pad);
        assert(data@ =~= crate::operations::zero_pad(
            eth_public_data_spec(self.block_transactions@),
            (self.block_chunks_size * CHUNK_BYTES) as nat,
        ));
        data
    }

    /// The witness-data blob and the byte count each witness-declaring
    /// operation contributed, in execution order, so the blob can be split
    /// back apart downstream.
    pub fn get_eth_witness_data(&self) -> (r: (Vec<u8>, Vec<u64>))
        ensures
            r.0@ == eth_witness_spec(self.block_transactions@),
            r.1@ == eth_witness_lens_spec(self.block_transactions@),
    {
        let ops = &self.block_transactions;
        let n = ops.len();
        let mut eth_witness: Vec<u8> = Vec::new();
        let mut used_bytes: Vec<u64> = Vec::new();
        let mut i: usize = 0;
        proof {
            assert(ops@.subrange(0, 0) =~= Seq::empty());
        }
        while i < n
            invariant
                n == ops@.len(),
                i <= n,
                eth_witness@ == eth_witness_spec(ops@.subrange(0, i as int)),
                used_bytes@ == eth_witness_lens_spec(ops@.subrange(0, i as int)),
            decreases n - i,
        {
            match ops[i].get_executed_op() {
                Some(op) => {
                    match op.eth_witness() {
                        Some(witness_bytes) => {
                            used_bytes.push(witness_bytes.len() as u64);
                            push_bytes(&mut eth_witness, witness_bytes.as_slice());
                        },
                        None => {},
                    }
                },
                None => {},
            }
            proof {
                assert(ops@.subrange(0, i + 1 as int).drop_last() =~= ops@.subrange(0, i as int));
                assert(ops@.subrange(0, i + 1 as int).last() == ops@[i as int]);
                assert(eth_witness@ =~= eth_witness_spec(ops@.subrange(0, i + 1 as int)));
                assert(used_bytes@ =~= eth_witness_lens_spec(ops@.subrange(0, i + 1 as int)));
            }
            i += 1;
        }
        proof {
            assert(ops@.subrange(0, n as int) =~= ops@);
        }
        (eth_witness, used_bytes)
    }

    /// How many priority operations this block consumed.
    pub fn number_of_processed_prior_ops(&self) -> (r: u64)
        requires
            self.processed_priority_ops.0 <= self.processed_priority_ops.1,
        ensures
            r == self.processed_priority_ops.1 - self.processed_priority_ops.0,
    {
        self.processed_priority_ops.1 - self.processed_priority_ops.0
    }

    /// Total chunks used by the block's materialized operations.
    fn chunks_used(&self) -> (r: usize)
        requires
            ops_wf(self.block_transactions@),
            chunks_used_spec(self.block_transactions@) <= usize::MAX,
        ensures
            r as nat == chunks_used_spec(self.block_transactions@),
    {
        let ops = &self.block_transactions;
        let n = ops.len();
        let mut used: usize = 0;
        let mut i: usize = 0;
        proof {
            assert(ops@.subrange(0, 0) =~= Seq::empty());
        }
        while i < n
            invariant
                n == ops@.len(),
                i <= n,
                ops_wf(ops@),
                chunks_used_spec(ops@) <= usize::MAX,
                used as nat == chunks_used_spec(ops@.subrange(0, i as int)),
            decreases n - i,
        {
            proof {
                lemma_chunks_used_step(ops@, i as int);
                lemma_chunks_used_prefix_le(ops@, i + 1 as int);
            }
            match ops[i].get_executed_op() {
                Some(op) => {
                    used = used + op.chunks();
                },
                None => {},
            }
            i += 1;
        }
        proof {
            assert(ops@.subrange(0, n as int) =~= ops@);
        }
        used
    }

    /// The smallest configured size class that holds this block.
    fn smallest_block_size(&self, available_block_sizes: &[usize]) -> (r: usize)
        requires
            ops_wf(self.block_transactions@),
            chunks_used_spec(self.block_transactions@) <= usize::MAX,
            some_size_fits(chunks_used_spec(self.block_transactions@), available_block_sizes@),
        ensures
            r == first_fit_size(chunks_used_spec(self.block_transactions@), available_block_sizes@),
            chunks_used_spec(self.block_transactions@) <= r,
    {
        let chunks_used = self.chunks_used();
        smallest_block_size_for_chunks(chunks_used, available_block_sizes)
    }

    /// The concatenated fixed-width withdrawal records of the block, in
    /// execution order.
    pub fn get_withdrawals_data(&self) -> (r: Vec<u8>)
        requires
            ops_wf(self.block_transactions@),
        ensures
            r@ == withdrawals_data_spec(self.block_transactions@),
    {
        let ops = &self.block_transactions;
        let n = ops.len();
        let mut withdrawals_data: Vec<u8> = Vec::new();
        let mut i: usize = 0;
        proof {
            assert(ops@.subrange(0, 0) =~= Seq::empty());
        }
        while i < n
            invariant
                n == ops@.len(),
                i <= n,
                ops_wf(ops@),
                withdrawals_data@ == withdrawals_data_spec(ops@.subrange(0, i as int)),
            decreases n - i,
        {
            match ops[i].get_executed_op() {
                Some(op) => {
                    match op.withdrawal_data() {
                        Some(withdrawal_data) => {
                            push_bytes(&mut withdrawals_data, withdrawal_data.as_slice());
                        },
                        None => {},
                    }
                },
                None => {},
            }
            proof {
                assert(ops@.subrange(0, i + 1 as int).drop_last() =~= ops@.subrange(0, i as int));
                assert(ops@.subrange(0, i + 1 as int).last() == ops@[i as int]);
                assert(withdrawals_data@ =~= withdrawals_data_spec(
                    ops@.subrange(0, i + 1 as int),
                ));
            }
            i += 1;
        }
        proof {
            assert(ops@.subrange(0, n as int) =~= ops@);
        }
        withdrawals_data
    }
}

/// The sizes are sorted, so the first fitting class is the smallest.
pub open spec fn sizes_sorted(s: Seq<usize>) -> bool {
    forall|i: int, j: int| 0 <= i <= j < s.len() ==> s[i] <= s[j]
}

/// Some configured size class can hold `chunks` chunks.
pub open spec fn some_size_fits(chunks: nat, sizes: Seq<usize>) -> bool {
    exists|i: int| 0 <= i < sizes.len() && chunks <= #[trigger] sizes[i]
}

/// The first configured size class that holds `chunks` chunks.
pub open spec fn first_fit_size(chunks: nat, sizes: Seq<usize>) -> usize
    decreases sizes.len(),
{
    if sizes.len() == 0 {
        0
    } else if chunks <= sizes.first() {
        sizes.first()
    } else {
        first_fit_size(chunks, sizes.drop_first())
    }
}

/// With sorted sizes, the first fitting class is minimal among all fitting
/// classes, and fits.
pub proof fn lemma_first_fit_minimal(chunks: nat, sizes: Seq<usize>)
    requires
        some_size_fits(chunks, sizes),
    ensures
        chunks <= first_fit_size(chunks, sizes),
        exists|i: int|
            0 <= i < sizes.len() && #[trigger] sizes[i] == first_fit_size(chunks, sizes),
        sizes_sorted(sizes) ==> forall|k: int|
            0 <= k < sizes.len() && chunks <= #[trigger] sizes[k] ==> first_fit_size(chunks, sizes)
                <= sizes[k],
    decreases sizes.len(),
{
    if sizes.len() > 0 {
        if chunks <= sizes.first() {
            assert(sizes[0] == first_fit_size(chunks, sizes));
        } else {
            let rest = sizes.drop_first();
            assert(some_size_fits(chunks, rest)) by {
                let i = choose|i: int| 0 <= i < sizes.len() && chunks <= #[trigger] sizes[i];
                assert(i >= 1);
                assert(rest[i - 1] == sizes[i]);
            }
            lemma_first_fit_minimal(chunks, rest);
            let j = choose|j: int|
                0 <= j < rest.len() && #[trigger] rest[j] == first_fit_size(chunks, rest);
            assert(sizes[j + 1] == first_fit_size(chunks, sizes));
            if sizes_sorted(sizes) {
                assert(sizes_sorted(rest)) by {
                    assert(forall|i: int, j2: int|
                        0 <= i <= j2 < rest.len() ==> #[trigger] rest[i] <= #[trigger] rest[j2])
                        by {
                        assert(forall|i: int, j2: int|
                            0 <= i <= j2 < rest.len() ==> rest[i] == sizes[i + 1] && rest[j2]
                                == sizes[j2 + 1]);
                    }
                }
                assert(forall|k: int|
                    0 <= k < sizes.len() && chunks <= #[trigger] sizes[k] ==> first_fit_size(
                        chunks,
                        sizes,
                    ) <= sizes[k]) by {
                    assert(forall|k: int|
                        1 <= k < sizes.len() && chunks <= #[trigger] sizes[k] ==> first_fit_size(
                            chunks,
                            rest,
                        ) <= rest[k - 1]);
                }
            }
        }
    }
}

/// The first configured block size that can hold the given chunk count.
/// Configurations list their sizes in ascending order, so this is the
/// smallest sufficient class; a chunk count above every class is a
/// protocol invariant violation the caller must rule out.
pub fn smallest_block_size_for_chunks(chunks_used: usize, available_block_sizes: &[usize]) -> (r:
    usize)
    requires
        some_size_fits(chunks_used as nat, available_block_sizes@),
    ensures
        r == first_fit_size(chunks_used as nat, available_block_sizes@),
        r >= chunks_used,
{
    proof {
        lemma_first_fit_minimal(chunks_used as nat, available_block_sizes@);
        assert(available_block_sizes@.subrange(0, available_block_sizes@.len() as int)
            =~= available_block_sizes@);
    }
    let n = available_block_sizes.len();
    let mut i: usize = 0;
    while i < n
        invariant
            n == available_block_sizes@.len(),
            i <= n,
            some_size_fits(chunks_used as nat, available_block_sizes@),
            first_fit_size(chunks_used as nat, available_block_sizes@) == first_fit_size(
                chunks_used as nat,
                available_block_sizes@.subrange(i as int, n as int),
            ),
            forall|j: int| 0 <= j < i ==> #[trigger] available_block_sizes@[j] < chunks_used,
        decreases n - i,
    {
        let block_size = available_block_sizes[i];
        if block_size >= chunks_used {
            proof {
                let tail = available_block_sizes@.subrange(i as int, n as int);
                assert(tail.first() == available_block_sizes@[i as int]);
            }
            return block_size;
        }
        proof {
            let tail = available_block_sizes@.subrange(i as int, n as int);
            assert(tail.drop_first() =~= available_block_sizes@.subrange(i + 1, n as int));
        }
        i += 1;
    }
    proof {
        let k = choose|k: int|
            0 <= k < available_block_sizes@.len() && chunks_used as nat
                <= #[trigger] available_block_sizes@[k];
        assert(false);
    }
    0
}

} // verus!
