//! The state keeper: the single sequential actor that applies batches to the
//! ledger and assembles blocks.
//!
//! A batch holds priority operations and signed transactions. Each candidate
//! is resolved to exactly one of three outcomes before the call returns:
//! applied (ledger mutated, operation recorded, chunks charged), failed
//! (recorded at zero cost, ledger untouched), or deferred (returned to the
//! caller unapplied, for a later batch). Deferral happens only for capacity:
//! a short chunk budget or an exhausted withdrawal allowance.
//!
//! The whole transition is specified by the fold functions below over the
//! keeper's view; the executable keeper is proved to compute exactly that
//! fold. A priority operation whose serial id does not extend the watermark
//! is a fatal protocol violation: the batch is rejected whole and the keeper
//! is unchanged.

use vstd::prelude::*;
use crate::block::{
    chunks_used_spec, executed_op_of, ops_wf, sizes_sorted, some_size_fits, Block,
    ExecutedOperations, ExecutedPriorityOp, ExecutedTx, PendingBlock, TxFailReason,
};
use crate::bytes::zero_seq;
use crate::ledger::{
    account_wf, ledger_wf, spec_bump_nonce, spec_credit, spec_debit, spec_new_account,
    spec_set_pubkey, view_find_address, Account, AccountLedger, AccountView,
};
use crate::operations::{
    op_chunks, op_is_withdrawal, op_wf, ChangePubKeyOp, DepositOp, FranklinOp, FullExitOp,
    TransferOp, TransferToNewOp, WithdrawOp,
};
use crate::params::{
    CHANGE_PUBKEY_CHUNKS, CHUNK_BYTES, DEPOSIT_CHUNKS, FULL_EXIT_CHUNKS, PUBKEY_HASH_BYTES,
    TRANSFER_CHUNKS, TRANSFER_TO_NEW_CHUNKS, WITHDRAW_CHUNKS,
};
use crate::tx::{
    change_pubkey_wf, priority_op_wf, transfer_wf, withdraw_wf, AccountId, FranklinPriorityOp,
    FranklinTx, Nonce, PriorityOp, TokenId,
};

verus! {

/// Whether priority operations are applied before or after the batch's
/// transactions: an explicit, documented configuration.
#[derive(Clone, Copy, Debug, PartialEq, Eq, Structural)]
pub enum ApplyOrdering {
    PriorityOpsFirst,
    TransactionsFirst,
}

/// Static configuration of the keeper.
#[derive(Debug)]
pub struct KeeperConfig {
    /// Available block size classes in chunks, ascending.
    pub available_block_chunks_sizes: Vec<usize>,
    /// Cap on withdrawal-class operations per block.
    pub max_withdrawals_per_block: usize,
    /// Pending-block iterations after which the caller should seal.
    pub max_block_iterations: usize,
    /// Largest registered token identifier.
    pub max_token_id: TokenId,
    /// Ordering of the two candidate streams within one batch.
    pub ordering: ApplyOrdering,
}

/// The largest configured size class: the chunk budget of a pending block.
pub open spec fn max_block_size(c: KeeperConfig) -> usize {
    c.available_block_chunks_sizes@.last()
}

pub open spec fn config_wf(c: KeeperConfig) -> bool {
    &&& c.available_block_chunks_sizes@.len() > 0
    &&& sizes_sorted(c.available_block_chunks_sizes@)
    &&& max_block_size(c) >= CHANGE_PUBKEY_CHUNKS
    &&& (max_block_size(c) as nat) * (CHUNK_BYTES as nat) <= usize::MAX
}

/// An ordered batch of candidate operations, as handed over by the mempool.
#[derive(Debug)]
pub struct ProposedBlock {
    pub priority_ops: Vec<PriorityOp>,
    pub txs: Vec<FranklinTx>,
}

/// A fatal protocol violation; the keeper must halt rather than continue
/// into an inconsistent block.
#[derive(Clone, Copy, Debug, PartialEq, Eq)]
pub enum ProtocolError {
    /// A priority operation's serial id does not extend the watermark.
    PriorityOpSerialMismatch { expected: u64, found: u64 },
}

/// What became of one transaction candidate.
pub enum TxOutcome {
    Deferred,
    Failed(TxFailReason),
    Applied,
}

/// The mathematical state a batch folds over.
#[verifier::ext_equal]
pub struct KeeperView {
    pub accounts: Seq<AccountView>,
    pub chunks_left: nat,
    pub withdrawals_left: nat,
    pub records: nat,
}

// ---------------------------------------------------------------------------
// Costs and classes
// ---------------------------------------------------------------------------

/// The chunk cost a transaction would have if applied now: a transfer costs
/// more when its recipient has no account yet.
pub open spec fn spec_tx_cost(l: Seq<AccountView>, tx: FranklinTx) -> nat {
    match tx {
        FranklinTx::Transfer(t) => if view_find_address(l, t.to@) is Some {
            TRANSFER_CHUNKS as nat
        } else {
            TRANSFER_TO_NEW_CHUNKS as nat
        },
        FranklinTx::Withdraw(_) => WITHDRAW_CHUNKS as nat,
        FranklinTx::ChangePubKey(_) => CHANGE_PUBKEY_CHUNKS as nat,
    }
}

/// Withdrawal-class transactions count against the per-block cap.
pub open spec fn tx_is_withdrawal(tx: FranklinTx) -> bool {
    tx is Withdraw
}

pub open spec fn priority_cost(p: PriorityOp) -> nat {
    match p.data {
        FranklinPriorityOp::Deposit(_) => DEPOSIT_CHUNKS as nat,
        FranklinPriorityOp::FullExit(_) => FULL_EXIT_CHUNKS as nat,
    }
}

/// Full exits produce on-chain withdrawals and count against the cap.
pub open spec fn priority_is_withdrawal(p: PriorityOp) -> bool {
    p.data is FullExit
}

// ---------------------------------------------------------------------------
// Validation
// ---------------------------------------------------------------------------

/// Validation of a spending account: existence, signing key, nonce, balance.
/// `total` is the whole amount leaving the account, amount plus fee.
pub open spec fn spec_validate_spender(
    l: Seq<AccountView>,
    from_addr: Seq<u8>,
    signer: Seq<u8>,
    nonce: Nonce,
    token: TokenId,
    total: int,
    max_token: TokenId,
) -> Option<TxFailReason> {
    if token > max_token {
        Some(TxFailReason::UnknownToken)
    } else {
        match view_find_address(l, from_addr) {
            None => Some(TxFailReason::AccountNotFound),
            Some(i) => {
                let a = l[i as int];
                if a.pub_key_hash == zero_seq(PUBKEY_HASH_BYTES as nat) || a.pub_key_hash
                    != signer {
                    Some(TxFailReason::InvalidSignature)
                } else if a.nonce != nonce || nonce == u32::MAX {
                    Some(TxFailReason::NonceMismatch)
                } else if (a.balances[token] as int) < total {
                    Some(TxFailReason::InsufficientBalance)
                } else {
                    None
                }
            },
        }
    }
}

/// Domain validation of a transaction against the current accounts: the
/// first failing rule is the recorded reason; `None` means it applies.
pub open spec fn spec_validate_tx(
    l: Seq<AccountView>,
    tx: FranklinTx,
    max_token: TokenId,
) -> Option<TxFailReason> {
    match tx {
        FranklinTx::Transfer(t) => if !transfer_wf(*t) {
            Some(TxFailReason::MalformedTx)
        } else {
            spec_validate_spender(
                l,
                t.from@,
                t.signer_pub_key_hash@,
                t.nonce,
                t.token,
                t.amount + t.fee,
                max_token,
            )
        },
        FranklinTx::Withdraw(w) => if !withdraw_wf(*w) {
            Some(TxFailReason::MalformedTx)
        } else {
            spec_validate_spender(
                l,
                w.from@,
                w.signer_pub_key_hash@,
                w.nonce,
                w.token,
                w.amount + w.fee,
                max_token,
            )
        },
        FranklinTx::ChangePubKey(c) => if !change_pubkey_wf(*c) {
            Some(TxFailReason::MalformedTx)
        } else if c.fee_token > max_token {
            Some(TxFailReason::UnknownToken)
        } else if c.account_id as nat >= l.len() {
            Some(TxFailReason::AccountNotFound)
        } else {
            let a = l[c.account_id as int];
            if a.address != c.account@ {
                Some(TxFailReason::AccountNotFound)
            } else if a.nonce != c.nonce || c.nonce == u32::MAX {
                Some(TxFailReason::NonceMismatch)
            } else if a.balances[c.fee_token] < c.fee {
                Some(TxFailReason::InsufficientBalance)
            } else {
                None
            }
        },
    }
}

// ---------------------------------------------------------------------------
// State transitions
// ---------------------------------------------------------------------------

/// Credit the block's fee account, when it exists.
pub open spec fn spec_fee_credit(
    l: Seq<AccountView>,
    fee_account: AccountId,
    token: TokenId,
    fee: u128,
) -> Seq<AccountView> {
    if (fee_account as nat) < l.len() {
        l.update(fee_account as int, spec_credit(l[fee_account as int], token, fee))
    } else {
        l
    }
}

/// A transfer between existing accounts: debit amount plus fee and advance
/// the sender's nonce, credit the recipient, credit the fee account.
pub open spec fn spec_apply_transfer(
    l: Seq<AccountView>,
    t: crate::tx::Transfer,
    fee_account: AccountId,
) -> Seq<AccountView> {
    let i = view_find_address(l, t.from@)->Some_0 as int;
    let j = view_find_address(l, t.to@)->Some_0 as int;
    let l1 = l.update(i, spec_bump_nonce(spec_debit(l[i], t.token, (t.amount + t.fee) as u128)));
    let l2 = l1.update(j, spec_credit(l1[j], t.token, t.amount));
    spec_fee_credit(l2, fee_account, t.token, t.fee)
}

/// A transfer to a fresh account: the recipient account is created first,
/// taking the next identifier.
pub open spec fn spec_apply_transfer_to_new(
    l: Seq<AccountView>,
    t: crate::tx::Transfer,
    fee_account: AccountId,
) -> Seq<AccountView> {
    let l0 = l.push(spec_new_account(t.to@));
    let i = view_find_address(l, t.from@)->Some_0 as int;
    let j = l.len() as int;
    let l1 = l0.update(i, spec_bump_nonce(spec_debit(l0[i], t.token, (t.amount + t.fee) as u128)));
    let l2 = l1.update(j, spec_credit(l1[j], t.token, t.amount));
    spec_fee_credit(l2, fee_account, t.token, t.fee)
}

/// A withdrawal: debit amount plus fee, advance the nonce, credit the fee
/// account; the amount leaves the ledger.
pub open spec fn spec_apply_withdraw(
    l: Seq<AccountView>,
    w: crate::tx::Withdraw,
    fee_account: AccountId,
) -> Seq<AccountView> {
    let i = view_find_address(l, w.from@)->Some_0 as int;
    let l1 = l.update(i, spec_bump_nonce(spec_debit(l[i], w.token, (w.amount + w.fee) as u128)));
    spec_fee_credit(l1, fee_account, w.token, w.fee)
}

/// A key change: register the new key hash, advance the nonce, pay the fee.
pub open spec fn spec_apply_change_pubkey(
    l: Seq<AccountView>,
    c: crate::tx::ChangePubKey,
    fee_account: AccountId,
) -> Seq<AccountView> {
    let i = c.account_id as int;
    let l1 = l.update(
        i,
        spec_bump_nonce(spec_set_pubkey(spec_debit(l[i], c.fee_token, c.fee), c.new_pk_hash@)),
    );
    spec_fee_credit(l1, fee_account, c.fee_token, c.fee)
}

/// The ledger after a valid transaction.
pub open spec fn spec_apply_tx_state(
    l: Seq<AccountView>,
    tx: FranklinTx,
    fee_account: AccountId,
) -> Seq<AccountView> {
    match tx {
        FranklinTx::Transfer(t) => if view_find_address(l, t.to@) is Some {
            spec_apply_transfer(l, *t, fee_account)
        } else {
            spec_apply_transfer_to_new(l, *t, fee_account)
        },
        FranklinTx::Withdraw(w) => spec_apply_withdraw(l, *w, fee_account),
        FranklinTx::ChangePubKey(c) => spec_apply_change_pubkey(l, *c, fee_account),
    }
}

/// A deposit: credit the target address, creating its account if absent.
pub open spec fn spec_apply_deposit(l: Seq<AccountView>, d: crate::tx::Deposit) -> Seq<
    AccountView,
> {
    match view_find_address(l, d.to@) {
        Some(i) => l.update(i as int, spec_credit(l[i as int], d.token, d.amount)),
        None => l.push(spec_credit(spec_new_account(d.to@), d.token, d.amount)),
    }
}

/// The amount a full exit withdraws: the account's whole balance of the
/// token when the identifier and address correspond, nothing otherwise.
pub open spec fn spec_full_exit_amount(l: Seq<AccountView>, f: crate::tx::FullExit) -> Option<
    u128,
> {
    if (f.account_id as nat) < l.len() && l[f.account_id as int].address == f.eth_address@ {
        Some(l[f.account_id as int].balances[f.token])
    } else {
        None
    }
}

/// A full exit: zero the token balance when it matches; otherwise the
/// ledger is unchanged and a zero amount is committed.
pub open spec fn spec_apply_full_exit(l: Seq<AccountView>, f: crate::tx::FullExit) -> Seq<
    AccountView,
> {
    match spec_full_exit_amount(l, f) {
        Some(amount) => l.update(
            f.account_id as int,
            spec_debit(l[f.account_id as int], f.token, amount),
        ),
        None => l,
    }
}

pub open spec fn spec_apply_priority_state(l: Seq<AccountView>, p: PriorityOp) -> Seq<
    AccountView,
> {
    match p.data {
        FranklinPriorityOp::Deposit(d) => spec_apply_deposit(l, d),
        FranklinPriorityOp::FullExit(f) => spec_apply_full_exit(l, f),
    }
}

// ---------------------------------------------------------------------------
// The batch fold
// ---------------------------------------------------------------------------

/// The outcome of one transaction candidate at the given state.
pub open spec fn spec_tx_outcome(k: KeeperView, tx: FranklinTx, max_token: TokenId) -> TxOutcome {
    if k.chunks_left < spec_tx_cost(k.accounts, tx) || (tx_is_withdrawal(tx) && k.withdrawals_left
        == 0) {
        TxOutcome::Deferred
    } else {
        match spec_validate_tx(k.accounts, tx, max_token) {
            Some(reason) => TxOutcome::Failed(reason),
            None => TxOutcome::Applied,
        }
    }
}

/// One transaction candidate: deferred candidates change nothing, failed
/// ones only add a record, applied ones advance the ledger and budgets.
pub open spec fn spec_tx_step(
    k: KeeperView,
    tx: FranklinTx,
    max_token: TokenId,
    fee_account: AccountId,
) -> KeeperView {
    match spec_tx_outcome(k, tx, max_token) {
        TxOutcome::Deferred => k,
        TxOutcome::Failed(_) => KeeperView { records: k.records + 1, ..k },
        TxOutcome::Applied => KeeperView {
            accounts: spec_apply_tx_state(k.accounts, tx, fee_account),
            chunks_left: (k.chunks_left - spec_tx_cost(k.accounts, tx)) as nat,
            withdrawals_left: if tx_is_withdrawal(tx) {
                (k.withdrawals_left - 1) as nat
            } else {
                k.withdrawals_left
            },
            records: k.records + 1,
        },
    }
}

/// The fold of a transaction list, front to back.
pub open spec fn spec_txs_fold(
    k: KeeperView,
    txs: Seq<FranklinTx>,
    max_token: TokenId,
    fee_account: AccountId,
) -> KeeperView
    decreases txs.len(),
{
    if txs.len() == 0 {
        k
    } else {
        spec_tx_step(
            spec_txs_fold(k, txs.drop_last(), max_token, fee_account),
            txs.last(),
            max_token,
            fee_account,
        )
    }
}

/// The outcome of each transaction of a list, aligned with the list.
pub open spec fn spec_txs_outcomes(
    k: KeeperView,
    txs: Seq<FranklinTx>,
    max_token: TokenId,
    fee_account: AccountId,
) -> Seq<TxOutcome>
    decreases txs.len(),
{
    if txs.len() == 0 {
        Seq::empty()
    } else {
        spec_txs_outcomes(k, txs.drop_last(), max_token, fee_account).push(
            spec_tx_outcome(
                spec_txs_fold(k, txs.drop_last(), max_token, fee_account),
                txs.last(),
                max_token,
            ),
        )
    }
}

/// The transactions of a list that the fold defers, in order.
pub open spec fn spec_deferred_txs(
    k: KeeperView,
    txs: Seq<FranklinTx>,
    max_token: TokenId,
    fee_account: AccountId,
) -> Seq<FranklinTx>
    decreases txs.len(),
{
    if txs.len() == 0 {
        Seq::empty()
    } else {
        let prefix = spec_deferred_txs(k, txs.drop_last(), max_token, fee_account);
        if spec_tx_outcome(
            spec_txs_fold(k, txs.drop_last(), max_token, fee_account),
            txs.last(),
            max_token,
        ) is Deferred {
            prefix.push(txs.last())
        } else {
            prefix
        }
    }
}

/// Every processed transaction's record stands in `ops` at the position the
/// fold assigns it, with the right content.
pub open spec fn txs_records_ok(
    k0: KeeperView,
    txs: Seq<FranklinTx>,
    max_token: TokenId,
    fee_account: AccountId,
    ops: Seq<ExecutedOperations>,
    created_at: u64,
) -> bool {
    forall|i: int|
        0 <= i < txs.len() ==> {
            let ki = spec_txs_fold(k0, txs.subrange(0, i), max_token, fee_account);
            let outcome = spec_tx_outcome(ki, #[trigger] txs[i], max_token);
            !(outcome is Deferred) ==> ki.records < ops.len() && tx_record_ok(
                ops[ki.records as int],
                ki.accounts,
                txs[i],
                outcome,
                ki.records,
                created_at,
            )
        }
}

/// Record correspondence extends by one processed transaction.
proof fn lemma_txs_records_extend(
    kv0: KeeperView,
    txs0: Seq<FranklinTx>,
    i: int,
    mt: TokenId,
    fa: AccountId,
    ops_before: Seq<ExecutedOperations>,
    ops_after: Seq<ExecutedOperations>,
    created_at: u64,
)
    requires
        0 <= i < txs0.len(),
        txs_records_ok(kv0, txs0.subrange(0, i), mt, fa, ops_before, created_at),
        forall|q: int| 0 <= q < ops_before.len() ==> ops_after[q] == #[trigger] ops_before[q],
        ops_after.len() >= ops_before.len(),
        spec_txs_fold(kv0, txs0.subrange(0, i), mt, fa).records == ops_before.len(),
        ({
            let ki = spec_txs_fold(kv0, txs0.subrange(0, i), mt, fa);
            let outcome = spec_tx_outcome(ki, txs0[i], mt);
            match outcome {
                TxOutcome::Deferred => ops_after == ops_before,
                _ => ops_after.len() == ops_before.len() + 1 && tx_record_ok(
                    ops_after.last(),
                    ki.accounts,
                    txs0[i],
                    outcome,
                    ops_before.len(),
                    created_at,
                ),
            }
        }),
    ensures
        txs_records_ok(kv0, txs0.subrange(0, i + 1), mt, fa, ops_after, created_at),
{
    let sub1 = txs0.subrange(0, i + 1);
    assert forall|q: int| 0 <= q < sub1.len() implies {
        let kq = spec_txs_fold(kv0, sub1.subrange(0, q), mt, fa);
        let outcome = spec_tx_outcome(kq, #[trigger] sub1[q], mt);
        !(outcome is Deferred) ==> kq.records < ops_after.len() && tx_record_ok(
            ops_after[kq.records as int],
            kq.accounts,
            sub1[q],
            outcome,
            kq.records,
            created_at,
        )
    } by {
        assert(sub1.subrange(0, q) =~= txs0.subrange(0, q));
        if q < i {
            assert(txs0.subrange(0, i).subrange(0, q) =~= txs0.subrange(0, q));
            assert(sub1[q] == txs0.subrange(0, i)[q]);
            let kq = spec_txs_fold(kv0, txs0.subrange(0, q), mt, fa);
            if !(spec_tx_outcome(kq, txs0[q], mt) is Deferred) {
                assert(kq.records < ops_before.len() && tx_record_ok(
                    ops_before[kq.records as int],
                    kq.accounts,
                    txs0[q],
                    spec_tx_outcome(kq, txs0[q], mt),
                    kq.records,
                    created_at,
                ));
                assert(ops_after[kq.records as int] == ops_before[kq.records as int]);
            }
        } else {
            assert(sub1[q] == txs0[i]);
        }
    }
}

/// The applied count of a priority fold never exceeds the list length.
proof fn lemma_priority_applied_le(kv0: KeeperView, pops: Seq<PriorityOp>)
    ensures
        spec_priority_fold(kv0, pops).1 <= pops.len(),
    decreases pops.len(),
{
    if pops.len() > 0 {
        lemma_priority_applied_le(kv0, pops.drop_last());
    }
}

/// Whether a priority operation fits the remaining capacity.
pub open spec fn spec_priority_fits(k: KeeperView, p: PriorityOp) -> bool {
    k.chunks_left >= priority_cost(p) && !(priority_is_withdrawal(p) && k.withdrawals_left == 0)
}

pub open spec fn spec_priority_step(k: KeeperView, p: PriorityOp) -> KeeperView {
    KeeperView {
        accounts: spec_apply_priority_state(k.accounts, p),
        chunks_left: (k.chunks_left - priority_cost(p)) as nat,
        withdrawals_left: if priority_is_withdrawal(p) {
            (k.withdrawals_left - 1) as nat
        } else {
            k.withdrawals_left
        },
        records: k.records + 1,
    }
}

/// The fold of a priority-operation list, and how many of them applied.
/// Priority operations are consumed strictly in order: the first one that
/// does not fit stops the stream, and all that follow are deferred with it.
pub open spec fn spec_priority_fold(k: KeeperView, pops: Seq<PriorityOp>) -> (KeeperView, nat)
    decreases pops.len(),
{
    if pops.len() == 0 {
        (k, 0)
    } else {
        let (k1, c) = spec_priority_fold(k, pops.drop_last());
        if c < pops.len() - 1 {
            (k1, c)
        } else if spec_priority_fits(k1, pops.last()) {
            (spec_priority_step(k1, pops.last()), (c + 1) as nat)
        } else {
            (k1, c)
        }
    }
}

/// The whole batch, in the configured order. Returns the final state and
/// the number of priority operations that applied.
pub open spec fn spec_execute_batch(
    k: KeeperView,
    pops: Seq<PriorityOp>,
    txs: Seq<FranklinTx>,
    max_token: TokenId,
    fee_account: AccountId,
    ordering: ApplyOrdering,
) -> (KeeperView, nat) {
    if ordering == ApplyOrdering::PriorityOpsFirst {
        let (k1, c) = spec_priority_fold(k, pops);
        (spec_txs_fold(k1, txs, max_token, fee_account), c)
    } else {
        let k1 = spec_txs_fold(k, txs, max_token, fee_account);
        spec_priority_fold(k1, pops)
    }
}

// ---------------------------------------------------------------------------
// Laws
// ---------------------------------------------------------------------------

/// The resolved spending account of a transaction: the account whose nonce
/// a successful application advances.
pub open spec fn spec_tx_spender(l: Seq<AccountView>, tx: FranklinTx) -> Option<nat> {
    match tx {
        FranklinTx::Transfer(t) => view_find_address(l, t.from@),
        FranklinTx::Withdraw(w) => view_find_address(l, w.from@),
        FranklinTx::ChangePubKey(c) => Some(c.account_id as nat),
    }
}

/// How many transactions of the list apply successfully as nonce-bearing
/// operations of the account at index `a`.
pub open spec fn spec_success_count(
    k: KeeperView,
    txs: Seq<FranklinTx>,
    mt: TokenId,
    fa: AccountId,
    a: int,
) -> nat
    decreases txs.len(),
{
    if txs.len() == 0 {
        0
    } else {
        let prev = spec_success_count(k, txs.drop_last(), mt, fa, a);
        let ki = spec_txs_fold(k, txs.drop_last(), mt, fa);
        prev + if spec_tx_outcome(ki, txs.last(), mt) is Applied && spec_tx_spender(
            ki.accounts,
            txs.last(),
        ) == Some(a as nat) {
            1nat
        } else {
            0nat
        }
    }
}

/// One transaction step advances exactly its spender's nonce, and only on
/// success.
proof fn lemma_step_nonce(k: KeeperView, tx: FranklinTx, mt: TokenId, fa: AccountId, a: int)
    requires
        0 <= a < k.accounts.len(),
    ensures
        ({
            let k2 = spec_tx_step(k, tx, mt, fa);
            &&& k.accounts.len() <= k2.accounts.len()
            &&& k2.accounts[a].nonce == k.accounts[a].nonce + (
            if spec_tx_outcome(k, tx, mt) is Applied && spec_tx_spender(k.accounts, tx) == Some(
                a as nat,
            ) {
                1int
            } else {
                0int
            })
        }),
{
    let l = k.accounts;
    if spec_tx_outcome(k, tx, mt) is Applied {
        assert(spec_validate_tx(l, tx, mt) is None);
        match tx {
            FranklinTx::Transfer(t) => {
                crate::ledger::lemma_find_address_in_range(l, t.from@, 0);
                crate::ledger::lemma_find_address_in_range(l, t.to@, 0);
                let i = view_find_address(l, t.from@)->Some_0 as int;
                assert(0 <= i < l.len());
                assert(l[i].nonce == t.nonce && t.nonce != u32::MAX);
            },
            FranklinTx::Withdraw(w) => {
                crate::ledger::lemma_find_address_in_range(l, w.from@, 0);
                let i = view_find_address(l, w.from@)->Some_0 as int;
                assert(0 <= i < l.len());
                assert(l[i].nonce == w.nonce && w.nonce != u32::MAX);
            },
            FranklinTx::ChangePubKey(c) => {
                assert((c.account_id as nat) < l.len());
                assert(l[c.account_id as int].nonce == c.nonce && c.nonce != u32::MAX);
            },
        }
    }
}

/// Nonces advance by exactly one per successfully applied nonce-bearing
/// operation of the account: the transaction fold never touches any other
/// account's nonce.
pub proof fn lemma_nonce_advance(
    k: KeeperView,
    txs: Seq<FranklinTx>,
    mt: TokenId,
    fa: AccountId,
    a: int,
)
    requires
        0 <= a < k.accounts.len(),
    ensures
        ({
            let k2 = spec_txs_fold(k, txs, mt, fa);
            &&& k.accounts.len() <= k2.accounts.len()
            &&& k2.accounts[a].nonce == k.accounts[a].nonce + spec_success_count(
                k,
                txs,
                mt,
                fa,
                a,
            )
        }),
    decreases txs.len(),
{
    if txs.len() > 0 {
        lemma_nonce_advance(k, txs.drop_last(), mt, fa, a);
        lemma_step_nonce(spec_txs_fold(k, txs.drop_last(), mt, fa), txs.last(), mt, fa, a);
    }
}

/// Priority operations bear no nonce: the priority fold preserves every
/// existing account's nonce.
pub proof fn lemma_priority_preserves_nonces(k: KeeperView, pops: Seq<PriorityOp>, a: int)
    requires
        0 <= a < k.accounts.len(),
    ensures
        ({
            let k2 = spec_priority_fold(k, pops).0;
            &&& k.accounts.len() <= k2.accounts.len()
            &&& k2.accounts[a].nonce == k.accounts[a].nonce
        }),
    decreases pops.len(),
{
    if pops.len() > 0 {
        lemma_priority_preserves_nonces(k, pops.drop_last(), a);
        lemma_priority_applied_le(k, pops.drop_last());
        let (k1, c) = spec_priority_fold(k, pops.drop_last());
        if c == pops.len() - 1 && spec_priority_fits(k1, pops.last()) {
            let k2 = spec_priority_step(k1, pops.last());
            match pops.last().data {
                FranklinPriorityOp::Deposit(d) => {
                    crate::ledger::lemma_find_address_in_range(k1.accounts, d.to@, 0);
                    assert(k2.accounts == spec_apply_deposit(k1.accounts, d));
                    assert(k1.accounts.len() <= k2.accounts.len());
                    assert(k2.accounts[a].nonce == k1.accounts[a].nonce);
                },
                FranklinPriorityOp::FullExit(f) => {
                    assert(k2.accounts == spec_apply_full_exit(k1.accounts, f));
                    assert(k1.accounts.len() <= k2.accounts.len());
                    assert(k2.accounts[a].nonce == k1.accounts[a].nonce);
                },
            }
        }
    }
}

/// Over a whole batch, an account's nonce advances by exactly the number
/// of its successfully applied nonce-bearing operations: priority
/// operations bear no nonce, and each applied transaction advances only
/// its spender's nonce, by one.
pub proof fn lemma_batch_nonce_advance(
    k: KeeperView,
    pops: Seq<PriorityOp>,
    txs: Seq<FranklinTx>,
    mt: TokenId,
    fa: AccountId,
    ordering: ApplyOrdering,
    a: int,
)
    requires
        0 <= a < k.accounts.len(),
    ensures
        ({
            let k2 = spec_execute_batch(k, pops, txs, mt, fa, ordering).0;
            let k_txs = if ordering == ApplyOrdering::PriorityOpsFirst {
                spec_priority_fold(k, pops).0
            } else {
                k
            };
            &&& k.accounts.len() <= k2.accounts.len()
            &&& k2.accounts[a].nonce == k.accounts[a].nonce + spec_success_count(
                k_txs,
                txs,
                mt,
                fa,
                a,
            )
        }),
{
    if ordering == ApplyOrdering::PriorityOpsFirst {
        lemma_priority_preserves_nonces(k, pops, a);
        let k1 = spec_priority_fold(k, pops).0;
        lemma_nonce_advance(k1, txs, mt, fa, a);
    } else {
        lemma_nonce_advance(k, txs, mt, fa, a);
        let k1 = spec_txs_fold(k, txs, mt, fa);
        lemma_priority_preserves_nonces(k1, pops, a);
    }
}

/// With chunk budget to spare, a withdrawal-class transaction is deferred
/// exactly when the block's withdrawal allowance is exhausted; deferral
/// changes nothing, so the candidate is still present for the next block.
pub proof fn lemma_withdrawal_cap_defers(
    k: KeeperView,
    tx: FranklinTx,
    mt: TokenId,
    fa: AccountId,
)
    requires
        tx_is_withdrawal(tx),
        spec_tx_cost(k.accounts, tx) <= k.chunks_left,
    ensures
        (spec_tx_outcome(k, tx, mt) is Deferred) <==> k.withdrawals_left == 0,
        spec_tx_outcome(k, tx, mt) is Deferred ==> spec_tx_step(k, tx, mt, fa) == k,
{
}

/// The serial ids extend `start` consecutively and gap-free.
pub open spec fn serials_consecutive(pops: Seq<PriorityOp>, start: u64) -> bool {
    forall|k: int| 0 <= k < pops.len() ==> (#[trigger] pops[k]).serial_id == start + k
}

/// The first position whose serial id breaks the sequence (the length when
/// none does).
pub open spec fn first_serial_mismatch_from(pops: Seq<PriorityOp>, start: u64, i: nat) -> nat
    decreases pops.len() - i,
{
    if i >= pops.len() {
        pops.len()
    } else if pops[i as int].serial_id != start + i {
        i
    } else {
        first_serial_mismatch_from(pops, start, i + 1)
    }
}

pub open spec fn first_serial_mismatch(pops: Seq<PriorityOp>, start: u64) -> nat {
    first_serial_mismatch_from(pops, start, 0)
}

/// Gas-limit hint base for the commit settlement transaction.
pub const COMMIT_GAS_BASE: u64 = 300000;

/// Additional commit gas per public-data chunk.
pub const COMMIT_GAS_PER_CHUNK: u64 = 250;

/// Gas-limit hint base for the verify settlement transaction.
pub const VERIFY_GAS_BASE: u64 = 200000;

/// Additional verify gas per public-data chunk.
pub const VERIFY_GAS_PER_CHUNK: u64 = 50;

/// The gas-limit hint formula: base plus a per-chunk allowance, capped at
/// the field's range.
pub open spec fn spec_block_gas_limit(base: u64, per_chunk: u64, chunks: nat) -> u64 {
    if base + per_chunk * chunks > u64::MAX {
        u64::MAX
    } else {
        (base + per_chunk * chunks) as u64
    }
}

/// The gas-limit hint for a block of the given size class.
pub fn block_gas_limit(base: u64, per_chunk: u64, chunks: usize) -> (r: u64)
    ensures
        r == spec_block_gas_limit(base, per_chunk, chunks as nat),
{
    if per_chunk != 0 && (chunks as u64) > (u64::MAX - base) / per_chunk {
        proof {
            let c = chunks as nat;
            assert(per_chunk * c > u64::MAX - base) by (nonlinear_arith)
                requires
                    per_chunk >= 1,
                    c > ((u64::MAX - base) as nat) / (per_chunk as nat),
            ;
        }
        u64::MAX
    } else {
        if per_chunk == 0 {
            base
        } else {
            proof {
                let c = chunks as nat;
                assert(per_chunk * c <= u64::MAX - base) by (nonlinear_arith)
                    requires
                        per_chunk >= 1,
                        c <= ((u64::MAX - base) as nat) / (per_chunk as nat),
                ;
            }
            base + per_chunk * (chunks as u64)
        }
    }
}

/// A throwaway transaction used to move candidates out of the batch vector.
fn dummy_tx() -> FranklinTx {
    FranklinTx::Transfer(
        Box::new(
            crate::tx::Transfer {
                from: crate::bytes::zero_vec(20),
                to: crate::bytes::zero_vec(20),
                token: 0,
                amount: 0,
                fee: 0,
                nonce: 0,
                signer_pub_key_hash: crate::bytes::zero_vec(20),
            },
        ),
    )
}

/// A throwaway priority operation used to move candidates out of the batch
/// vector.
fn dummy_priority_op() -> PriorityOp {
    PriorityOp {
        serial_id: 0,
        data: FranklinPriorityOp::Deposit(
            crate::tx::Deposit {
                from: crate::bytes::zero_vec(20),
                token: 0,
                amount: 0,
                to: crate::bytes::zero_vec(20),
            },
        ),
        deadline_block: 0,
        eth_hash: crate::bytes::zero_vec(32),
        eth_block: 0,
    }
}

// ---------------------------------------------------------------------------
// Records
// ---------------------------------------------------------------------------

/// The operation a valid transaction materializes at the given ledger.
pub open spec fn is_expected_tx_op(op: FranklinOp, l: Seq<AccountView>, tx: FranklinTx) -> bool {
    match tx {
        FranklinTx::Transfer(t) => if view_find_address(l, t.to@) is Some {
            &&& op matches FranklinOp::Transfer(o) && o.tx@ == t@ && Some(o.from as nat)
                == view_find_address(l, t.from@) && Some(o.to as nat) == view_find_address(
                l,
                t.to@,
            )
        } else {
            &&& op matches FranklinOp::TransferToNew(o) && o.tx@ == t@ && Some(o.from as nat)
                == view_find_address(l, t.from@) && o.to as nat == l.len()
        },
        FranklinTx::Withdraw(w) => {
            &&& op matches FranklinOp::Withdraw(o) && o.tx@ == w@ && Some(o.account_id as nat)
                == view_find_address(l, w.from@)
        },
        FranklinTx::ChangePubKey(c) => {
            &&& op matches FranklinOp::ChangePubKey(o) && o.tx@ == c@ && o.account_id
                == c.account_id
        },
    }
}

/// What the record of a processed (not deferred) transaction holds: the
/// transaction itself, the outcome, the materialized operation on success,
/// the position as block index, and the batch timestamp.
pub open spec fn tx_record_ok(
    rec: ExecutedOperations,
    l: Seq<AccountView>,
    tx: FranklinTx,
    outcome: TxOutcome,
    index: nat,
    created_at: u64,
) -> bool {
    match outcome {
        TxOutcome::Deferred => false,
        TxOutcome::Failed(reason) => {
            &&& rec matches ExecutedOperations::Tx(et) && et.tx@ == tx@ && !et.success && et.op
                is None && et.fail_reason == Some(reason) && et.block_index == Some(index as u32)
                && et.created_at == created_at
        },
        TxOutcome::Applied => {
            &&& rec matches ExecutedOperations::Tx(et) && et.tx@ == tx@ && et.success
                && et.fail_reason is None && (et.op matches Some(op) && is_expected_tx_op(
                op,
                l,
                tx,
            )) && et.block_index == Some(index as u32) && et.created_at == created_at
        },
    }
}

/// What the record of an applied priority operation holds.
pub open spec fn priority_record_ok(
    rec: ExecutedOperations,
    l: Seq<AccountView>,
    pop: PriorityOp,
    index: nat,
    created_at: u64,
) -> bool {
    &&& rec matches ExecutedOperations::PriorityOp(ep)
    &&& ep.priority_op@ == pop@
    &&& ep.block_index == index as u32
    &&& ep.created_at == created_at
    &&& match pop.data {
        FranklinPriorityOp::Deposit(d) => {
            &&& ep.op matches FranklinOp::Deposit(o)
            &&& o.priority_op@ == d@
            &&& match view_find_address(l, d.to@) {
                Some(i) => o.account_id as nat == i,
                None => o.account_id as nat == l.len(),
            }
        },
        FranklinPriorityOp::FullExit(f) => {
            &&& ep.op matches FranklinOp::FullExit(o)
            &&& o.priority_op@ == f@
            &&& o.withdraw_amount == spec_full_exit_amount(l, f)
        },
    }
}

/// Appending one record extends the chunk total and withdrawal count by
/// that record's contribution.
pub proof fn lemma_record_push(ops: Seq<ExecutedOperations>, e: ExecutedOperations)
    ensures
        chunks_used_spec(ops.push(e)) == chunks_used_spec(ops) + crate::block::executed_chunks(e),
        count_withdrawal_records(ops.push(e)) == count_withdrawal_records(ops) + (
        match executed_op_of(e) {
            Some(op) => if op_is_withdrawal(op) {
                1nat
            } else {
                0nat
            },
            None => 0nat,
        }),
{
    assert(ops.push(e).drop_last() =~= ops);
}

// ---------------------------------------------------------------------------
// The keeper
// ---------------------------------------------------------------------------

/// Every record of the pending block carries its position as block index,
/// assigned strictly increasing from zero, one per recorded operation.
pub open spec fn record_indexes_ok(ops: Seq<ExecutedOperations>) -> bool {
    forall|p: int|
        0 <= p < ops.len() ==> match #[trigger] ops[p] {
            ExecutedOperations::Tx(t) => t.block_index == Some(p as u32),
            ExecutedOperations::PriorityOp(q) => q.block_index == p as u32,
        }
}

/// How many recorded operations are of the withdrawal class.
pub open spec fn count_withdrawal_records(ops: Seq<ExecutedOperations>) -> nat
    decreases ops.len(),
{
    if ops.len() == 0 {
        0
    } else {
        count_withdrawal_records(ops.drop_last()) + (match executed_op_of(ops.last()) {
            Some(op) => if op_is_withdrawal(op) {
                1nat
            } else {
                0nat
            },
            None => 0nat,
        })
    }
}

/// The ledger and block state the keeper starts from.
#[derive(Debug)]
pub struct PlasmaStateInitParams {
    pub accounts: Vec<Account>,
    pub last_block_number: crate::tx::BlockNumber,
    pub unprocessed_priority_op: u64,
}

impl PlasmaStateInitParams {
    pub fn new() -> (r: Self)
        ensures
            r.accounts@.len() == 0,
            r.last_block_number == 0,
            r.unprocessed_priority_op == 0,
    {
        PlasmaStateInitParams { accounts: Vec::new(), last_block_number: 0, unprocessed_priority_op: 0 }
    }

    /// Registers the account with the next dense identifier.
    pub fn insert_account(&mut self, id: AccountId, account: Account)
        requires
            id as nat == old(self).accounts@.len(),
        ensures
            final(self).accounts@ == old(self).accounts@.push(account),
            final(self).last_block_number == old(self).last_block_number,
            final(self).unprocessed_priority_op == old(self).unprocessed_priority_op,
    {
        self.accounts.push(account);
    }
}

/// The single sequential actor owning the ledger and the pending block.
#[derive(Debug)]
pub struct PlasmaStateKeeper {
    pub state: AccountLedger,
    pub fee_account_id: AccountId,
    /// The serial id the next priority operation must carry (the watermark).
    pub current_unprocessed_priority_op: u64,
    pub pending: PendingBlock,
    /// Withdrawal-class operations recorded in the pending block.
    pub withdrawals_in_block: usize,
    pub config: KeeperConfig,
}

pub open spec fn keeper_wf(s: PlasmaStateKeeper) -> bool {
    &&& config_wf(s.config)
    &&& ledger_wf(s.state)
    &&& (s.fee_account_id as nat) < s.state@.len()
    &&& ops_wf(s.pending.success_operations@)
    &&& s.pending.chunks_left + chunks_used_spec(s.pending.success_operations@) == max_block_size(
        s.config,
    )
    &&& s.withdrawals_in_block <= s.config.max_withdrawals_per_block
    &&& s.withdrawals_in_block as nat == count_withdrawal_records(s.pending.success_operations@)
    &&& record_indexes_ok(s.pending.success_operations@)
    &&& s.pending.success_operations@.len() <= u32::MAX
    &&& s.pending.unprocessed_priority_op_before <= s.current_unprocessed_priority_op
}

/// The mathematical state a batch folds over.
pub open spec fn keeper_view(s: PlasmaStateKeeper) -> KeeperView {
    KeeperView {
        accounts: s.state@,
        chunks_left: s.pending.chunks_left as nat,
        withdrawals_left: (s.config.max_withdrawals_per_block - s.withdrawals_in_block) as nat,
        records: s.pending.success_operations@.len(),
    }
}

impl PlasmaStateKeeper {
    /// A keeper over the given initial ledger, ready to assemble the block
    /// after the last known one.
    pub fn new(
        initial_state: PlasmaStateInitParams,
        fee_account_id: AccountId,
        config: KeeperConfig,
        block_timestamp: u64,
    ) -> (r: Self)
        requires
            config_wf(config),
            forall|i: int|
                0 <= i < initial_state.accounts@.len() ==> account_wf(
                    #[trigger] initial_state.accounts@[i],
                ),
            initial_state.accounts@.len() <= u32::MAX,
            (fee_account_id as nat) < initial_state.accounts@.len(),
            initial_state.last_block_number < u32::MAX,
        ensures
            keeper_wf(r),
            r.state@ == Seq::new(
                initial_state.accounts@.len(),
                |i: int| initial_state.accounts@[i]@,
            ),
            r.fee_account_id == fee_account_id,
            r.current_unprocessed_priority_op == initial_state.unprocessed_priority_op,
            r.pending.number == initial_state.last_block_number + 1,
            r.pending.chunks_left == max_block_size(config),
            r.pending.unprocessed_priority_op_before == initial_state.unprocessed_priority_op,
            r.pending.pending_block_iteration == 0,
            r.pending.success_operations@.len() == 0,
            r.pending.block_timestamp == block_timestamp,
            r.withdrawals_in_block == 0,
            r.config == config,
    {
        let n = config.available_block_chunks_sizes.len();
        let chunks_left = config.available_block_chunks_sizes[n - 1];
        let r = PlasmaStateKeeper {
            state: AccountLedger { accounts: initial_state.accounts },
            fee_account_id,
            current_unprocessed_priority_op: initial_state.unprocessed_priority_op,
            pending: PendingBlock {
                number: initial_state.last_block_number + 1,
                chunks_left,
                unprocessed_priority_op_before: initial_state.unprocessed_priority_op,
                pending_block_iteration: 0,
                success_operations: Vec::new(),
                block_timestamp,
            },
            withdrawals_in_block: 0,
            config,
        };
        r
    }

    /// Read-only account lookup by address: reflects exactly the operations
    /// applied so far.
    pub fn get_account(&self, address: &[u8]) -> (r: Option<(AccountId, Account)>)
        requires
            keeper_wf(*self),
        ensures
            match r {
                Some((id, a)) => {
                    &&& view_find_address(self.state@, address@) == Some(id as nat)
                    &&& a@ == self.state@[id as int]
                },
                None => view_find_address(self.state@, address@) is None,
            },
    {
        match self.state.find_by_address(address) {
            Some((id, account)) => Some((id, account.clone())),
            None => None,
        }
    }

    /// The pending block, for snapshot events.
    pub fn pending_block(&self) -> (r: &PendingBlock)
        ensures
            r == &self.pending,
    {
        &self.pending
    }

    /// Whether the pending block has lived long enough that the caller
    /// should seal it even with partial chunk usage.
    pub fn seal_is_due(&self) -> (r: bool)
        ensures
            r == (self.pending.pending_block_iteration >= self.config.max_block_iterations),
    {
        self.pending.pending_block_iteration >= self.config.max_block_iterations
    }

    /// The chunk cost the transaction would have if applied now.
    fn tx_chunk_cost(&self, tx: &FranklinTx) -> (r: usize)
        requires
            keeper_wf(*self),
        ensures
            r as nat == spec_tx_cost(self.state@, *tx),
    {
        match tx {
            FranklinTx::Transfer(t) => {
                match self.state.find_by_address(t.to.as_slice()) {
                    Some(_) => TRANSFER_CHUNKS,
                    None => TRANSFER_TO_NEW_CHUNKS,
                }
            },
            FranklinTx::Withdraw(_) => WITHDRAW_CHUNKS,
            FranklinTx::ChangePubKey(_) => CHANGE_PUBKEY_CHUNKS,
        }
    }

    /// Domain validation of one transaction against the current ledger.
    fn validate_tx(&self, tx: &FranklinTx) -> (r: Option<TxFailReason>)
        requires
            keeper_wf(*self),
        ensures
            r == spec_validate_tx(self.state@, *tx, self.config.max_token_id),
    {
        match tx {
            FranklinTx::Transfer(t) => {
                if !t.check_correctness() {
                    return Some(TxFailReason::MalformedTx);
                }
                self.validate_spender(
                    t.from.as_slice(),
                    t.signer_pub_key_hash.as_slice(),
                    t.nonce,
                    t.token,
                    t.amount,
                    t.fee,
                )
            },
            FranklinTx::Withdraw(w) => {
                if !w.check_correctness() {
                    return Some(TxFailReason::MalformedTx);
                }
                self.validate_spender(
                    w.from.as_slice(),
                    w.signer_pub_key_hash.as_slice(),
                    w.nonce,
                    w.token,
                    w.amount,
                    w.fee,
                )
            },
            FranklinTx::ChangePubKey(c) => {
                if !c.check_correctness() {
                    return Some(TxFailReason::MalformedTx);
                }
                if c.fee_token > self.config.max_token_id {
                    return Some(TxFailReason::UnknownToken);
                }
                let account = match self.state.get_account(c.account_id) {
                    Some(a) => a,
                    None => {
                        return Some(TxFailReason::AccountNotFound);
                    },
                };
                if !crate::bytes::bytes_eq(account.address.as_slice(), c.account.as_slice()) {
                    return Some(TxFailReason::AccountNotFound);
                }
                if account.nonce != c.nonce || c.nonce == u32::MAX {
                    return Some(TxFailReason::NonceMismatch);
                }
                if account.get_balance(c.fee_token) < c.fee {
                    return Some(TxFailReason::InsufficientBalance);
                }
                None
            },
        }
    }

    /// Resolves one transaction candidate: applies it, records a failure,
    /// or hands it back deferred when capacity is short.
    fn process_tx(&mut self, tx: FranklinTx, created_at: u64) -> (r: Option<FranklinTx>)
        requires
            keeper_wf(*old(self)),
            old(self).pending.success_operations@.len() < u32::MAX,
            old(self).state@.len() < u32::MAX,
        ensures
            keeper_wf(*final(self)),
            keeper_view(*final(self)) == spec_tx_step(
                keeper_view(*old(self)),
                tx,
                old(self).config.max_token_id,
                old(self).fee_account_id,
            ),
            final(self).config == old(self).config,
            final(self).fee_account_id == old(self).fee_account_id,
            final(self).current_unprocessed_priority_op == old(
                self,
            ).current_unprocessed_priority_op,
            final(self).pending.number == old(self).pending.number,
            final(self).pending.unprocessed_priority_op_before == old(
                self,
            ).pending.unprocessed_priority_op_before,
            final(self).pending.pending_block_iteration == old(
                self,
            ).pending.pending_block_iteration,
            final(self).pending.block_timestamp == old(self).pending.block_timestamp,
            final(self).state@.len() <= old(self).state@.len() + 1,
            ({
                let kv0 = keeper_view(*old(self));
                let ops0 = old(self).pending.success_operations@;
                let ops1 = final(self).pending.success_operations@;
                let outcome = spec_tx_outcome(kv0, tx, old(self).config.max_token_id);
                match outcome {
                    TxOutcome::Deferred => {
                        &&& r == Some(tx)
                        &&& ops1 == ops0
                    },
                    _ => {
                        &&& r is None
                        &&& ops1.len() == ops0.len() + 1
                        &&& (forall|q: int| 0 <= q < ops0.len() ==> ops1[q] == #[trigger] ops0[q])
                        &&& tx_record_ok(
                            ops1.last(),
                            kv0.accounts,
                            tx,
                            outcome,
                            ops0.len(),
                            created_at,
                        )
                    },
                }
            }),
    {
        let ghost kv0 = keeper_view(*old(self));
        let cost = self.tx_chunk_cost(&tx);
        let is_withdrawal = match &tx {
            FranklinTx::Withdraw(_) => true,
            _ => false,
        };
        if self.pending.chunks_left < cost || (is_withdrawal && self.withdrawals_in_block
            >= self.config.max_withdrawals_per_block) {
            assert(spec_tx_outcome(kv0, tx, self.config.max_token_id) is Deferred);
            return Some(tx);
        }
        assert(!(spec_tx_outcome(kv0, tx, self.config.max_token_id) is Deferred));
        let validation = self.validate_tx(&tx);
        let index = self.pending.success_operations.len() as u32;
        match validation {
            Some(reason) => {
                let record = ExecutedOperations::Tx(
                    Box::new(
                        ExecutedTx {
                            tx,
                            success: false,
                            op: None,
                            fail_reason: Some(reason),
                            block_index: Some(index),
                            created_at,
                        },
                    ),
                );
                proof {
                    lemma_record_push(self.pending.success_operations@, record);
                }
                self.pending.success_operations.push(record);
                proof {
                    assert(keeper_view(*self) =~~= spec_tx_step(
                        kv0,
                        tx,
                        self.config.max_token_id,
                        self.fee_account_id,
                    ));
                }
                return None;
            },
            None => {},
        }
        // The transaction is valid: mutate the ledger and record the
        // materialized operation.
        let op: FranklinOp = match &tx {
            FranklinTx::Transfer(t) => {
                let from_id = match self.state.find_by_address(t.from.as_slice()) {
                    Some((id, _)) => id,
                    None => vstd::pervasive::unreached(),
                };
                let total = t.amount + t.fee;
                match self.state.find_by_address(t.to.as_slice()) {
                    Some((to_id, _)) => {
                        self.state.spend_from(from_id, t.token, total);
                        self.state.credit_to(to_id, t.token, t.amount);
                        self.state.credit_to(self.fee_account_id, t.token, t.fee);
                        FranklinOp::Transfer(
                            Box::new(TransferOp { tx: (**t).clone(), from: from_id, to: to_id }),
                        )
                    },
                    None => {
                        let to_id = self.state.create_account(&t.to);
                        self.state.spend_from(from_id, t.token, total);
                        self.state.credit_to(to_id, t.token, t.amount);
                        self.state.credit_to(self.fee_account_id, t.token, t.fee);
                        FranklinOp::TransferToNew(
                            Box::new(
                                TransferToNewOp { tx: (**t).clone(), from: from_id, to: to_id },
                            ),
                        )
                    },
                }
            },
            FranklinTx::Withdraw(w) => {
                let from_id = match self.state.find_by_address(w.from.as_slice()) {
                    Some((id, _)) => id,
                    None => vstd::pervasive::unreached(),
                };
                let total = w.amount + w.fee;
                self.state.spend_from(from_id, w.token, total);
                self.state.credit_to(self.fee_account_id, w.token, w.fee);
                FranklinOp::Withdraw(
                    Box::new(WithdrawOp { tx: (**w).clone(), account_id: from_id }),
                )
            },
            FranklinTx::ChangePubKey(c) => {
                self.state.register_pubkey(c.account_id, &c.new_pk_hash, c.fee_token, c.fee);
                self.state.credit_to(self.fee_account_id, c.fee_token, c.fee);
                FranklinOp::ChangePubKey(
                    Box::new(ChangePubKeyOp { tx: (**c).clone(), account_id: c.account_id }),
                )
            },
        };
        assert(self.state@ == spec_apply_tx_state(kv0.accounts, tx, self.fee_account_id));
        assert(is_expected_tx_op(op, kv0.accounts, tx));
        assert(op_wf(op));
        assert(op_chunks(op) == cost);
        assert(op_is_withdrawal(op) == is_withdrawal);
        let record = ExecutedOperations::Tx(
            Box::new(
                ExecutedTx {
                    tx,
                    success: true,
                    op: Some(op),
                    fail_reason: None,
                    block_index: Some(index),
                    created_at,
                },
            ),
        );
        proof {
            lemma_record_push(self.pending.success_operations@, record);
        }
        self.pending.success_operations.push(record);
        self.pending.chunks_left = self.pending.chunks_left - cost;
        if is_withdrawal {
            self.withdrawals_in_block = self.withdrawals_in_block + 1;
        }
        proof {
            assert(keeper_view(*self) =~~= spec_tx_step(
                kv0,
                tx,
                self.config.max_token_id,
                self.fee_account_id,
            ));
            assert(ops_wf(self.pending.success_operations@));
            assert(record_indexes_ok(self.pending.success_operations@));
            assert(ledger_wf(self.state));
        }
        None
    }

    /// Resolves one priority operation: applies it (priority operations
    /// never fail), or hands it back deferred when capacity is short.
    fn process_priority_op(&mut self, op: PriorityOp, created_at: u64) -> (r: Option<PriorityOp>)
        requires
            keeper_wf(*old(self)),
            priority_op_wf(op),
            old(self).pending.success_operations@.len() < u32::MAX,
            old(self).state@.len() < u32::MAX,
            old(self).current_unprocessed_priority_op < u64::MAX,
        ensures
            keeper_wf(*final(self)),
            final(self).config == old(self).config,
            final(self).fee_account_id == old(self).fee_account_id,
            final(self).pending.number == old(self).pending.number,
            final(self).pending.unprocessed_priority_op_before == old(
                self,
            ).pending.unprocessed_priority_op_before,
            final(self).pending.pending_block_iteration == old(
                self,
            ).pending.pending_block_iteration,
            final(self).pending.block_timestamp == old(self).pending.block_timestamp,
            final(self).state@.len() <= old(self).state@.len() + 1,
            ({
                let kv0 = keeper_view(*old(self));
                let ops0 = old(self).pending.success_operations@;
                let ops1 = final(self).pending.success_operations@;
                if spec_priority_fits(kv0, op) {
                    &&& r is None
                    &&& keeper_view(*final(self)) == spec_priority_step(kv0, op)
                    &&& final(self).current_unprocessed_priority_op == old(
                        self,
                    ).current_unprocessed_priority_op + 1
                    &&& ops1.len() == ops0.len() + 1
                    &&& (forall|q: int| 0 <= q < ops0.len() ==> ops1[q] == #[trigger] ops0[q])
                    &&& priority_record_ok(ops1.last(), kv0.accounts, op, ops0.len(), created_at)
                } else {
                    &&& r == Some(op)
                    &&& keeper_view(*final(self)) == kv0
                    &&& final(self).current_unprocessed_priority_op == old(
                        self,
                    ).current_unprocessed_priority_op
                    &&& ops1 == ops0
                }
            }),
    {
        let ghost kv0 = keeper_view(*old(self));
        let cost = match &op.data {
            FranklinPriorityOp::Deposit(_) => DEPOSIT_CHUNKS,
            FranklinPriorityOp::FullExit(_) => FULL_EXIT_CHUNKS,
        };
        let is_withdrawal = match &op.data {
            FranklinPriorityOp::FullExit(_) => true,
            FranklinPriorityOp::Deposit(_) => false,
        };
        if self.pending.chunks_left < cost || (is_withdrawal && self.withdrawals_in_block
            >= self.config.max_withdrawals_per_block) {
            assert(!spec_priority_fits(kv0, op));
            return Some(op);
        }
        assert(spec_priority_fits(kv0, op));
        let index = self.pending.success_operations.len() as u32;
        let fop: FranklinOp = match &op.data {
            FranklinPriorityOp::Deposit(d) => {
                let account_id = match self.state.find_by_address(d.to.as_slice()) {
                    Some((id, _)) => id,
                    None => self.state.create_account(&d.to),
                };
                self.state.credit_to(account_id, d.token, d.amount);
                proof {
                    assert(self.state@ =~= spec_apply_deposit(kv0.accounts, *d));
                }
                FranklinOp::Deposit(Box::new(DepositOp { priority_op: d.clone(), account_id }))
            },
            FranklinPriorityOp::FullExit(f) => {
                let withdraw_amount: Option<u128> = match self.state.get_account(f.account_id) {
                    Some(account) => {
                        if crate::bytes::bytes_eq(
                            account.address.as_slice(),
                            f.eth_address.as_slice(),
                        ) {
                            Some(account.get_balance(f.token))
                        } else {
                            None
                        }
                    },
                    None => None,
                };
                match &withdraw_amount {
                    Some(amount) => {
                        self.state.debit_from(f.account_id, f.token, *amount);
                    },
                    None => {},
                }
                assert(withdraw_amount == spec_full_exit_amount(kv0.accounts, *f));
                assert(self.state@ == spec_apply_full_exit(kv0.accounts, *f));
                FranklinOp::FullExit(
                    Box::new(FullExitOp { priority_op: f.clone(), withdraw_amount }),
                )
            },
        };
        assert(self.state@ == spec_apply_priority_state(kv0.accounts, op));
        assert(op_wf(fop));
        assert(op_chunks(fop) == cost);
        assert(op_is_withdrawal(fop) == is_withdrawal);
        let record = ExecutedOperations::PriorityOp(
            Box::new(
                ExecutedPriorityOp { priority_op: op, op: fop, block_index: index, created_at },
            ),
        );
        proof {
            lemma_record_push(self.pending.success_operations@, record);
        }
        self.pending.success_operations.push(record);
        self.pending.chunks_left = self.pending.chunks_left - cost;
        if is_withdrawal {
            self.withdrawals_in_block = self.withdrawals_in_block + 1;
        }
        self.current_unprocessed_priority_op = self.current_unprocessed_priority_op + 1;
        proof {
            assert(keeper_view(*self) =~~= spec_priority_step(kv0, op));
            assert(ops_wf(self.pending.success_operations@));
            assert(record_indexes_ok(self.pending.success_operations@));
        }
        None
    }

    /// Processes every transaction of the batch in order, returning the
    /// deferred ones.
    #[verifier::rlimit(60)]
    fn run_txs(&mut self, txs: Vec<FranklinTx>, created_at: u64) -> (deferred: Vec<FranklinTx>)
        requires
            keeper_wf(*old(self)),
            old(self).pending.success_operations@.len() + txs@.len() <= u32::MAX,
            old(self).state@.len() + txs@.len() <= u32::MAX,
        ensures
            keeper_wf(*final(self)),
            keeper_view(*final(self)) == spec_txs_fold(
                keeper_view(*old(self)),
                txs@,
                old(self).config.max_token_id,
                old(self).fee_account_id,
            ),
            deferred@ == spec_deferred_txs(
                keeper_view(*old(self)),
                txs@,
                old(self).config.max_token_id,
                old(self).fee_account_id,
            ),
            txs_records_ok(
                keeper_view(*old(self)),
                txs@,
                old(self).config.max_token_id,
                old(self).fee_account_id,
                final(self).pending.success_operations@,
                created_at,
            ),
            ({
                let before = old(self).pending.success_operations@;
                let after = final(self).pending.success_operations@;
                forall|q: int| 0 <= q < before.len() ==> after[q] == #[trigger] before[q]
            }),
            final(self).config == old(self).config,
            final(self).fee_account_id == old(self).fee_account_id,
            final(self).current_unprocessed_priority_op == old(
                self,
            ).current_unprocessed_priority_op,
            final(self).pending.number == old(self).pending.number,
            final(self).pending.unprocessed_priority_op_before == old(
                self,
            ).pending.unprocessed_priority_op_before,
            final(self).pending.pending_block_iteration == old(
                self,
            ).pending.pending_block_iteration,
            final(self).pending.block_timestamp == old(self).pending.block_timestamp,
            final(self).state@.len() <= old(self).state@.len() + txs@.len(),
            final(self).pending.success_operations@.len() <= old(
                self,
            ).pending.success_operations@.len() + txs@.len(),
    {
        let ghost kv0 = keeper_view(*self);
        let ghost txs0 = txs@;
        let ghost ops0 = self.pending.success_operations@;
        let ghost mt = self.config.max_token_id;
        let ghost fa = self.fee_account_id;
        let ghost cfg0 = self.config;
        let ghost wm0 = self.current_unprocessed_priority_op;
        let ghost num0 = self.pending.number;
        let ghost before0 = self.pending.unprocessed_priority_op_before;
        let ghost iter0 = self.pending.pending_block_iteration;
        let ghost ts0 = self.pending.block_timestamp;
        let mut txs = txs;
        let mut deferred: Vec<FranklinTx> = Vec::new();
        let n = txs.len();
        let mut i: usize = 0;
        proof {
            assert(txs0.subrange(0, 0) =~= Seq::empty());
        }
        while i < n
            invariant
                n == txs@.len() == txs0.len(),
                i <= n,
                keeper_wf(*self),
                forall|q: int| i <= q < n ==> txs@[q] == #[trigger] txs0[q],
                keeper_view(*self) == spec_txs_fold(kv0, txs0.subrange(0, i as int), mt, fa),
                deferred@ == spec_deferred_txs(kv0, txs0.subrange(0, i as int), mt, fa),
                txs_records_ok(
                    kv0,
                    txs0.subrange(0, i as int),
                    mt,
                    fa,
                    self.pending.success_operations@,
                    created_at,
                ),
                forall|q: int| 0 <= q < ops0.len() ==> self.pending.success_operations@[q]
                    == #[trigger] ops0[q],
                self.config == cfg0,
                mt == cfg0.max_token_id,
                self.fee_account_id == fa,
                self.current_unprocessed_priority_op == wm0,
                self.pending.number == num0,
                self.pending.unprocessed_priority_op_before == before0,
                self.pending.pending_block_iteration == iter0,
                self.pending.block_timestamp == ts0,
                ops0.len() <= self.pending.success_operations@.len() <= ops0.len() + i,
                self.state@.len() <= kv0.accounts.len() + i,
                ops0.len() + n <= u32::MAX,
                kv0.accounts.len() + n <= u32::MAX,
            decreases n - i,
        {
            let ghost ops_before = self.pending.success_operations@;
            let ghost kv_before = keeper_view(*self);
            let mut tx = dummy_tx();
            txs.set_and_swap(i, &mut tx);
            assert(tx == txs0[i as int]);
            let r = self.process_tx(tx, created_at);
            match r {
                Some(t) => {
                    deferred.push(t);
                },
                None => {},
            }
            proof {
                assert(txs0.subrange(0, i + 1 as int).drop_last() =~= txs0.subrange(0, i as int));
                assert(txs0.subrange(0, i + 1 as int).last() == txs0[i as int]);
                assert(keeper_view(*self) == spec_tx_step(kv_before, txs0[i as int], mt, fa));
                assert(keeper_view(*self) == spec_txs_fold(
                    kv0,
                    txs0.subrange(0, i + 1 as int),
                    mt,
                    fa,
                ));
                assert(deferred@ =~= spec_deferred_txs(kv0, txs0.subrange(0, i + 1 as int), mt, fa));
                lemma_txs_records_extend(
                    kv0,
                    txs0,
                    i as int,
                    mt,
                    fa,
                    ops_before,
                    self.pending.success_operations@,
                    created_at,
                );
                assert forall|q: int| 0 <= q < ops0.len() implies
                    self.pending.success_operations@[q] == #[trigger] ops0[q] by {
                    assert(ops_before[q] == ops0[q]);
                    assert(self.pending.success_operations@[q] == ops_before[q]);
                }
            }
            i += 1;
        }
        proof {
            assert(txs0.subrange(0, n as int) =~= txs0);
        }
        deferred
    }

    /// Processes the batch's priority operations strictly in order,
    /// returning the deferred tail. The serial ids must already have been
    /// checked against the watermark.
    #[verifier::rlimit(100)]
    fn run_priority_ops(&mut self, pops: Vec<PriorityOp>, created_at: u64) -> (deferred: Vec<
        PriorityOp,
    >)
        requires
            keeper_wf(*old(self)),
            forall|q: int| 0 <= q < pops@.len() ==> priority_op_wf(#[trigger] pops@[q]),
            old(self).pending.success_operations@.len() + pops@.len() <= u32::MAX,
            old(self).state@.len() + pops@.len() <= u32::MAX,
            old(self).current_unprocessed_priority_op + pops@.len() <= u64::MAX,
        ensures
            keeper_wf(*final(self)),
            keeper_view(*final(self)) == spec_priority_fold(keeper_view(*old(self)), pops@).0,
            final(self).current_unprocessed_priority_op == old(
                self,
            ).current_unprocessed_priority_op + spec_priority_fold(
                keeper_view(*old(self)),
                pops@,
            ).1,
            deferred@ == pops@.skip(spec_priority_fold(keeper_view(*old(self)), pops@).1 as int),
            ({
                let before = old(self).pending.success_operations@;
                let after = final(self).pending.success_operations@;
                before.len() <= after.len() && forall|q: int|
                    0 <= q < before.len() ==> after[q] == #[trigger] before[q]
            }),
            final(self).config == old(self).config,
            final(self).fee_account_id == old(self).fee_account_id,
            final(self).pending.number == old(self).pending.number,
            final(self).pending.unprocessed_priority_op_before == old(
                self,
            ).pending.unprocessed_priority_op_before,
            final(self).pending.pending_block_iteration == old(
                self,
            ).pending.pending_block_iteration,
            final(self).pending.block_timestamp == old(self).pending.block_timestamp,
            final(self).state@.len() <= old(self).state@.len() + pops@.len(),
            final(self).pending.success_operations@.len() <= old(
                self,
            ).pending.success_operations@.len() + pops@.len(),
    {
        let ghost kv0 = keeper_view(*self);
        let ghost pops0 = pops@;
        let ghost ops0 = self.pending.success_operations@;
        let ghost fa = self.fee_account_id;
        let ghost cfg0 = self.config;
        let ghost wm0 = self.current_unprocessed_priority_op;
        let ghost num0 = self.pending.number;
        let ghost before0 = self.pending.unprocessed_priority_op_before;
        let ghost iter0 = self.pending.pending_block_iteration;
        let ghost ts0 = self.pending.block_timestamp;
        let mut pops = pops;
        let mut deferred: Vec<PriorityOp> = Vec::new();
        let mut stopped = false;
        let n = pops.len();
        let mut i: usize = 0;
        proof {
            assert(pops0.subrange(0, 0) =~= Seq::empty());
            assert(deferred@ =~= pops0.subrange(0, 0).skip(0));
        }
        while i < n
            invariant
                n == pops@.len() == pops0.len(),
                i <= n,
                keeper_wf(*self),
                forall|q: int| 0 <= q < n ==> priority_op_wf(#[trigger] pops0[q]),
                forall|q: int| i <= q < n ==> pops@[q] == #[trigger] pops0[q],
                keeper_view(*self) == spec_priority_fold(kv0, pops0.subrange(0, i as int)).0,
                self.current_unprocessed_priority_op == wm0 + spec_priority_fold(
                    kv0,
                    pops0.subrange(0, i as int),
                ).1,
                spec_priority_fold(kv0, pops0.subrange(0, i as int)).1 <= i,
                stopped <==> spec_priority_fold(kv0, pops0.subrange(0, i as int)).1 < i,
                deferred@ == pops0.subrange(0, i as int).skip(
                    spec_priority_fold(kv0, pops0.subrange(0, i as int)).1 as int,
                ),
                ops0.len() <= self.pending.success_operations@.len() <= ops0.len() + i,
                forall|q: int| 0 <= q < ops0.len() ==> self.pending.success_operations@[q]
                    == #[trigger] ops0[q],
                self.config == cfg0,
                self.fee_account_id == fa,
                self.pending.number == num0,
                self.pending.unprocessed_priority_op_before == before0,
                self.pending.pending_block_iteration == iter0,
                self.pending.block_timestamp == ts0,
                self.state@.len() <= kv0.accounts.len() + i,
                ops0.len() + n <= u32::MAX,
                kv0.accounts.len() + n <= u32::MAX,
                wm0 + n <= u64::MAX,
            decreases n - i,
        {
            let ghost ops_before = self.pending.success_operations@;
            let ghost kv_before = keeper_view(*self);
            let ghost c_before = spec_priority_fold(kv0, pops0.subrange(0, i as int)).1;
            let mut op = dummy_priority_op();
            pops.set_and_swap(i, &mut op);
            assert(op == pops0[i as int]);
            let ghost opg = op;
            if stopped {
                deferred.push(op);
                proof {
                    assert(pops0.subrange(0, i + 1 as int).drop_last() =~= pops0.subrange(
                        0,
                        i as int,
                    ));
                    assert(pops0.subrange(0, i + 1 as int).last() == pops0[i as int]);
                    assert(spec_priority_fold(kv0, pops0.subrange(0, i + 1 as int))
                        == (kv_before, c_before));
                    assert(deferred@ =~= pops0.subrange(0, i + 1 as int).skip(c_before as int));
                }
            } else {
                assert(c_before == i);
                let r = self.process_priority_op(op, created_at);
                proof {
                    assert(pops0.subrange(0, i + 1 as int).drop_last() =~= pops0.subrange(
                        0,
                        i as int,
                    ));
                    assert(pops0.subrange(0, i + 1 as int).last() == pops0[i as int]);
                }
                match r {
                    Some(op_back) => {
                        stopped = true;
                        deferred.push(op_back);
                        proof {
                            assert(!spec_priority_fits(kv_before, opg));
                            assert(spec_priority_fold(kv0, pops0.subrange(0, i + 1 as int)) == (
                                kv_before,
                                c_before,
                            ));
                            assert(deferred@ =~= pops0.subrange(0, i + 1 as int).skip(
                                c_before as int,
                            ));
                        }
                    },
                    None => {
                        proof {
                            assert(spec_priority_fits(kv_before, opg));
                            assert(spec_priority_fold(kv0, pops0.subrange(0, i + 1 as int)) == (
                                spec_priority_step(kv_before, opg),
                                (c_before + 1) as nat,
                            ));
                            assert(deferred@ =~= pops0.subrange(0, i + 1 as int).skip(
                                (c_before + 1) as int,
                            ));
                        }
                    },
                }
            }
            proof {
                assert forall|q: int| 0 <= q < ops0.len() implies
                    self.pending.success_operations@[q] == #[trigger] ops0[q] by {
                    assert(ops_before[q] == ops0[q]);
                }
            }
            i += 1;
        }
        proof {
            assert(pops0.subrange(0, n as int) =~= pops0);
        }
        deferred
    }

    /// Checks that the batch's serial ids extend the watermark gap-free;
    /// reports the first violation.
    fn check_serials(&self, pops: &Vec<PriorityOp>) -> (r: Option<ProtocolError>)
        requires
            self.current_unprocessed_priority_op + pops@.len() <= u64::MAX,
        ensures
            r is None <==> serials_consecutive(pops@, self.current_unprocessed_priority_op),
            r matches Some(e) ==> ({
                let k = first_serial_mismatch(pops@, self.current_unprocessed_priority_op);
                e == (ProtocolError::PriorityOpSerialMismatch {
                    expected: (self.current_unprocessed_priority_op + k) as u64,
                    found: pops@[k as int].serial_id,
                })
            }),
    {
        let ghost wm0 = self.current_unprocessed_priority_op;
        let n = pops.len();
        let mut k: usize = 0;
        while k < n
            invariant
                n == pops@.len(),
                k <= n,
                wm0 == self.current_unprocessed_priority_op,
                wm0 + n <= u64::MAX,
                forall|q: int| 0 <= q < k ==> (#[trigger] pops@[q]).serial_id == wm0 + q,
                first_serial_mismatch(pops@, wm0) == first_serial_mismatch_from(
                    pops@,
                    wm0,
                    k as nat,
                ),
            decreases n - k,
        {
            let expected = self.current_unprocessed_priority_op + (k as u64);
            let serial = pops[k].serial_id;
            if serial != expected {
                assert(first_serial_mismatch_from(pops@, wm0, k as nat) == k);
                assert(!serials_consecutive(pops@, wm0));
                return Some(ProtocolError::PriorityOpSerialMismatch { expected, found: serial });
            }
            k += 1;
        }
        assert(serials_consecutive(pops@, wm0));
        None
    }

    /// Applies one proposed batch: priority operations and transactions, in
    /// the configured order. Returns the deferred candidates for a later
    /// batch. A priority operation whose serial id does not extend the
    /// watermark is a fatal protocol violation: the whole batch is rejected
    /// and the keeper is unchanged.
    pub fn execute_proposed_block(&mut self, proposed: ProposedBlock, created_at: u64) -> (r:
        Result<ProposedBlock, ProtocolError>)
        requires
            keeper_wf(*old(self)),
            forall|q: int|
                0 <= q < proposed.priority_ops@.len() ==> priority_op_wf(
                    #[trigger] proposed.priority_ops@[q],
                ),
            old(self).pending.success_operations@.len() + proposed.priority_ops@.len()
                + proposed.txs@.len() <= u32::MAX,
            old(self).state@.len() + proposed.priority_ops@.len() + proposed.txs@.len()
                <= u32::MAX,
            old(self).current_unprocessed_priority_op + proposed.priority_ops@.len() <= u64::MAX,
        ensures
            keeper_wf(*final(self)),
            r is Ok <==> serials_consecutive(
                proposed.priority_ops@,
                old(self).current_unprocessed_priority_op,
            ),
            r matches Err(e) ==> ({
                let k = first_serial_mismatch(
                    proposed.priority_ops@,
                    old(self).current_unprocessed_priority_op,
                );
                &&& *final(self) == *old(self)
                &&& e == (ProtocolError::PriorityOpSerialMismatch {
                    expected: (old(self).current_unprocessed_priority_op + k) as u64,
                    found: proposed.priority_ops@[k as int].serial_id,
                })
            }),
            r matches Ok(leftover) ==> ({
                let kv0 = keeper_view(*old(self));
                let mt = old(self).config.max_token_id;
                let fa = old(self).fee_account_id;
                let ordering = old(self).config.ordering;
                let pops = proposed.priority_ops@;
                let txs = proposed.txs@;
                let folded = spec_execute_batch(kv0, pops, txs, mt, fa, ordering);
                let kv_txs = if ordering == ApplyOrdering::PriorityOpsFirst {
                    spec_priority_fold(kv0, pops).0
                } else {
                    kv0
                };
                &&& keeper_view(*final(self)) == folded.0
                &&& final(self).current_unprocessed_priority_op == old(
                    self,
                ).current_unprocessed_priority_op + folded.1
                &&& leftover.priority_ops@ == pops.skip(folded.1 as int)
                &&& leftover.txs@ == spec_deferred_txs(kv_txs, txs, mt, fa)
                &&& txs_records_ok(
                    kv_txs,
                    txs,
                    mt,
                    fa,
                    final(self).pending.success_operations@,
                    created_at,
                )
                &&& final(self).pending.pending_block_iteration == (
                if old(self).pending.pending_block_iteration
                    < old(self).config.max_block_iterations {
                    old(self).pending.pending_block_iteration + 1
                } else {
                    old(self).pending.pending_block_iteration as int
                })
                &&& final(self).pending.number == old(self).pending.number
                &&& final(self).pending.unprocessed_priority_op_before == old(
                    self,
                ).pending.unprocessed_priority_op_before
                &&& final(self).pending.block_timestamp == old(self).pending.block_timestamp
                &&& final(self).config == old(self).config
                &&& final(self).fee_account_id == old(self).fee_account_id
            }),
    {
        let ghost wm0 = self.current_unprocessed_priority_op;
        let ghost pops0 = proposed.priority_ops@;
        match self.check_serials(&proposed.priority_ops) {
            Some(e) => {
                return Err(e);
            },
            None => {},
        }
        assert(serials_consecutive(pops0, wm0));
        // The batch is atomic from here on: every candidate is resolved.
        let ProposedBlock { priority_ops, txs } = proposed;
        let mut deferred_priority_ops: Vec<PriorityOp>;
        let mut deferred_txs: Vec<FranklinTx>;
        match self.config.ordering {
            ApplyOrdering::PriorityOpsFirst => {
                deferred_priority_ops = self.run_priority_ops(priority_ops, created_at);
                deferred_txs = self.run_txs(txs, created_at);
            },
            ApplyOrdering::TransactionsFirst => {
                deferred_txs = self.run_txs(txs, created_at);
                deferred_priority_ops = self.run_priority_ops(priority_ops, created_at);
            },
        }
        if self.pending.pending_block_iteration < self.config.max_block_iterations {
            self.pending.pending_block_iteration = self.pending.pending_block_iteration + 1;
        }
        Ok(ProposedBlock { priority_ops: deferred_priority_ops, txs: deferred_txs })
    }

    /// Finalizes the pending block into an immutable block, carrying the
    /// new state root computed by the out-of-scope tree, and resets the
    /// pending block for the next block number. The chosen size class is
    /// the smallest configured class that holds the chunks used.
    pub fn seal_pending_block(&mut self, new_root_hash: Vec<u8>, next_timestamp: u64) -> (r:
        Block)
        requires
            keeper_wf(*old(self)),
            new_root_hash@.len() == crate::params::ROOT_HASH_BYTES,
            old(self).pending.number < u32::MAX,
        ensures
            keeper_wf(*final(self)),
            crate::block::block_wf(r),
            r.block_number == old(self).pending.number,
            r.new_root_hash == new_root_hash,
            r.fee_account == old(self).fee_account_id,
            r.block_timestamp == Some(old(self).pending.block_timestamp),
            r.block_transactions@ == old(self).pending.success_operations@,
            r.processed_priority_ops == (
                old(self).pending.unprocessed_priority_op_before,
                old(self).current_unprocessed_priority_op,
            ),
            r.block_chunks_size == crate::block::first_fit_size(
                chunks_used_spec(old(self).pending.success_operations@),
                old(self).config.available_block_chunks_sizes@,
            ),
            chunks_used_spec(r.block_transactions@) <= r.block_chunks_size,
            final(self).state == old(self).state,
            final(self).config == old(self).config,
            final(self).fee_account_id == old(self).fee_account_id,
            final(self).current_unprocessed_priority_op == old(
                self,
            ).current_unprocessed_priority_op,
            final(self).pending.number == old(self).pending.number + 1,
            final(self).pending.chunks_left == max_block_size(old(self).config),
            final(self).pending.unprocessed_priority_op_before == old(
                self,
            ).current_unprocessed_priority_op,
            final(self).pending.pending_block_iteration == 0,
            final(self).pending.success_operations@.len() == 0,
            final(self).pending.block_timestamp == next_timestamp,
            final(self).withdrawals_in_block == 0,
    {
        let ghost ops0 = self.pending.success_operations@;
        let n_sizes = self.config.available_block_chunks_sizes.len();
        let max_size = self.config.available_block_chunks_sizes[n_sizes - 1];
        let chunks_used = max_size - self.pending.chunks_left;
        proof {
            assert(chunks_used as nat == chunks_used_spec(ops0));
            assert(crate::block::some_size_fits(
                chunks_used as nat,
                self.config.available_block_chunks_sizes@,
            )) by {
                assert(self.config.available_block_chunks_sizes@[n_sizes - 1] >= chunks_used);
            }
        }
        let block_chunks_size = crate::block::smallest_block_size_for_chunks(
            chunks_used,
            self.config.available_block_chunks_sizes.as_slice(),
        );
        let mut block_transactions: Vec<ExecutedOperations> = Vec::new();
        core::mem::swap(&mut block_transactions, &mut self.pending.success_operations);
        let commit_gas_limit = block_gas_limit(COMMIT_GAS_BASE, COMMIT_GAS_PER_CHUNK, block_chunks_size);
        let verify_gas_limit = block_gas_limit(VERIFY_GAS_BASE, VERIFY_GAS_PER_CHUNK, block_chunks_size);
        let block = Block::new(
            self.pending.number,
            new_root_hash,
            self.fee_account_id,
            Some(self.pending.block_timestamp),
            block_transactions,
            (self.pending.unprocessed_priority_op_before, self.current_unprocessed_priority_op),
            block_chunks_size,
            commit_gas_limit,
            verify_gas_limit,
        );
        self.pending.number = self.pending.number + 1;
        self.pending.chunks_left = max_size;
        self.pending.unprocessed_priority_op_before = self.current_unprocessed_priority_op;
        self.pending.pending_block_iteration = 0;
        self.pending.block_timestamp = next_timestamp;
        self.withdrawals_in_block = 0;
        proof {
            assert(self.pending.success_operations@ =~= Seq::<ExecutedOperations>::empty());
        }
        block
    }

    /// Validation of a spending account: existence, signing key, nonce,
    /// balance covering amount plus fee.
    fn validate_spender(
        &self,
        from_addr: &[u8],
        signer: &[u8],
        nonce: Nonce,
        token: TokenId,
        amount: u128,
        fee: u128,
    ) -> (r: Option<TxFailReason>)
        requires
            keeper_wf(*self),
        ensures
            r == spec_validate_spender(
                self.state@,
                from_addr@,
                signer@,
                nonce,
                token,
                amount + fee,
                self.config.max_token_id,
            ),
    {
        if token > self.config.max_token_id {
            return Some(TxFailReason::UnknownToken);
        }
        let account = match self.state.find_by_address(from_addr) {
            Some((_id, a)) => a,
            None => {
                return Some(TxFailReason::AccountNotFound);
            },
        };
        let zero_hash = crate::bytes::zero_vec(PUBKEY_HASH_BYTES);
        if crate::bytes::bytes_eq(account.pub_key_hash.as_slice(), zero_hash.as_slice())
            || !crate::bytes::bytes_eq(account.pub_key_hash.as_slice(), signer) {
            return Some(TxFailReason::InvalidSignature);
        }
        if account.nonce != nonce || nonce == u32::MAX {
            return Some(TxFailReason::NonceMismatch);
        }
        let balance = account.get_balance(token);
        if balance < amount || balance - amount < fee {
            return Some(TxFailReason::InsufficientBalance);
        }
        None
    }
}

} // verus!
