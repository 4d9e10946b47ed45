//! Transactions and priority operations as plain data.
//!
//! Byte-string fields (addresses, key hashes, signatures) are vectors with a
//! fixed length stated by each type's well-formedness predicate. Amounts are
//! 128-bit integers, the width of an on-chain balance field; fields that are
//! committed on-chain in packed form must hold packable values.
//!
//! Cryptographic signature verification is an out-of-scope collaborator: a
//! signed transaction carries the hash of the key that signed it, and
//! validation compares that hash with the account's registered key.

use vstd::prelude::*;
use crate::bytes::slice_to_vec;
use crate::packing::packable;
use crate::params::{
    ADDRESS_BYTES, AMOUNT_MANTISSA_LIMIT, FEE_MANTISSA_LIMIT, PUBKEY_HASH_BYTES,
};

verus! {

pub type AccountId = u32;

pub type TokenId = u16;

pub type Nonce = u32;

pub type BlockNumber = u32;

/// Width of a packed Ethereum signature carried as change-pubkey witness
/// material.
pub const ETH_SIGNATURE_BYTES: usize = 65;

/// Width of a create2 salt or code-hash witness field.
pub const HASH32_BYTES: usize = 32;

/// An address field has its fixed width.
pub open spec fn is_address(s: Seq<u8>) -> bool {
    s.len() == ADDRESS_BYTES
}

/// A public-key hash field has its fixed width.
pub open spec fn is_pubkey_hash(s: Seq<u8>) -> bool {
    s.len() == PUBKEY_HASH_BYTES
}

/// A signed transfer between two accounts.
#[derive(Debug, PartialEq)]
pub struct Transfer {
    pub from: Vec<u8>,
    pub to: Vec<u8>,
    pub token: TokenId,
    pub amount: u128,
    pub fee: u128,
    pub nonce: Nonce,
    /// Hash of the key whose signature authorised this transaction.
    pub signer_pub_key_hash: Vec<u8>,
}

/// A signed withdrawal from an account to an Ethereum address.
#[derive(Debug, PartialEq)]
pub struct Withdraw {
    pub from: Vec<u8>,
    pub to: Vec<u8>,
    pub token: TokenId,
    pub amount: u128,
    pub fee: u128,
    pub nonce: Nonce,
    /// Hash of the key whose signature authorised this transaction.
    pub signer_pub_key_hash: Vec<u8>,
}

/// How a change-pubkey transaction was authorised on the Ethereum side.
#[derive(Debug, PartialEq)]
pub enum ChangePubKeyType {
    EthereumSignature { eth_signature: Vec<u8> },
    Create2Contract { creator_address: Vec<u8>, salt_arg: Vec<u8>, code_hash: Vec<u8> },
    OnchainTransaction,
}

/// A signed request to register a new public-key hash for an account.
#[derive(Debug, PartialEq)]
pub struct ChangePubKey {
    pub account_id: AccountId,
    pub account: Vec<u8>,
    pub new_pk_hash: Vec<u8>,
    pub fee_token: TokenId,
    pub fee: u128,
    pub nonce: Nonce,
    pub change_pubkey_type: ChangePubKeyType,
}

/// A signed L2 transaction of any kind.
#[derive(Debug, PartialEq)]
pub enum FranklinTx {
    Transfer(Box<Transfer>),
    Withdraw(Box<Withdraw>),
    ChangePubKey(Box<ChangePubKey>),
}

/// An L1-initiated deposit to an L2 address.
#[derive(Debug, PartialEq)]
pub struct Deposit {
    pub from: Vec<u8>,
    pub token: TokenId,
    pub amount: u128,
    pub to: Vec<u8>,
}

/// An L1-initiated request to withdraw an account's full balance of a token.
#[derive(Debug, PartialEq)]
pub struct FullExit {
    pub account_id: AccountId,
    pub eth_address: Vec<u8>,
    pub token: TokenId,
}

/// The payload of a priority operation.
#[derive(Debug, PartialEq)]
pub enum FranklinPriorityOp {
    Deposit(Deposit),
    FullExit(FullExit),
}

/// A priority operation as issued upstream: strictly serially ordered and
/// immutable, with its L1 provenance.
#[derive(Debug, PartialEq)]
pub struct PriorityOp {
    pub serial_id: u64,
    pub data: FranklinPriorityOp,
    pub deadline_block: u64,
    pub eth_hash: Vec<u8>,
    pub eth_block: u64,
}

pub open spec fn transfer_wf(t: Transfer) -> bool {
    &&& is_address(t.from@)
    &&& is_address(t.to@)
    &&& is_pubkey_hash(t.signer_pub_key_hash@)
    &&& packable(t.amount as nat, AMOUNT_MANTISSA_LIMIT as nat)
    &&& packable(t.fee as nat, FEE_MANTISSA_LIMIT as nat)
}

pub open spec fn withdraw_wf(w: Withdraw) -> bool {
    &&& is_address(w.from@)
    &&& is_address(w.to@)
    &&& is_pubkey_hash(w.signer_pub_key_hash@)
    &&& packable(w.fee as nat, FEE_MANTISSA_LIMIT as nat)
}

pub open spec fn change_pubkey_type_wf(t: ChangePubKeyType) -> bool {
    match t {
        ChangePubKeyType::EthereumSignature { eth_signature } => eth_signature@.len()
            == ETH_SIGNATURE_BYTES,
        ChangePubKeyType::Create2Contract { creator_address, salt_arg, code_hash } => {
            &&& is_address(creator_address@)
            &&& salt_arg@.len() == HASH32_BYTES
            &&& code_hash@.len() == HASH32_BYTES
        },
        ChangePubKeyType::OnchainTransaction => true,
    }
}

pub open spec fn change_pubkey_wf(c: ChangePubKey) -> bool {
    &&& is_address(c.account@)
    &&& is_pubkey_hash(c.new_pk_hash@)
    &&& packable(c.fee as nat, FEE_MANTISSA_LIMIT as nat)
    &&& change_pubkey_type_wf(c.change_pubkey_type)
}

pub open spec fn tx_wf(tx: FranklinTx) -> bool {
    match tx {
        FranklinTx::Transfer(t) => transfer_wf(*t),
        FranklinTx::Withdraw(w) => withdraw_wf(*w),
        FranklinTx::ChangePubKey(c) => change_pubkey_wf(*c),
    }
}

pub open spec fn deposit_wf(d: Deposit) -> bool {
    &&& is_address(d.from@)
    &&& is_address(d.to@)
}

pub open spec fn full_exit_wf(f: FullExit) -> bool {
    is_address(f.eth_address@)
}

pub open spec fn priority_op_wf(p: PriorityOp) -> bool {
    match p.data {
        FranklinPriorityOp::Deposit(d) => deposit_wf(d),
        FranklinPriorityOp::FullExit(f) => full_exit_wf(f),
    }
}

/// The mathematical value of a transfer.
pub struct TransferView {
    pub from: Seq<u8>,
    pub to: Seq<u8>,
    pub token: TokenId,
    pub amount: u128,
    pub fee: u128,
    pub nonce: Nonce,
    pub signer_pub_key_hash: Seq<u8>,
}

/// The mathematical value of a withdrawal.
pub struct WithdrawView {
    pub from: Seq<u8>,
    pub to: Seq<u8>,
    pub token: TokenId,
    pub amount: u128,
    pub fee: u128,
    pub nonce: Nonce,
    pub signer_pub_key_hash: Seq<u8>,
}

pub enum ChangePubKeyTypeView {
    EthereumSignature(Seq<u8>),
    Create2Contract(Seq<u8>, Seq<u8>, Seq<u8>),
    OnchainTransaction,
}

/// The mathematical value of a change-pubkey request.
pub struct ChangePubKeyView {
    pub account_id: AccountId,
    pub account: Seq<u8>,
    pub new_pk_hash: Seq<u8>,
    pub fee_token: TokenId,
    pub fee: u128,
    pub nonce: Nonce,
    pub change_pubkey_type: ChangePubKeyTypeView,
}

pub enum FranklinTxView {
    Transfer(TransferView),
    Withdraw(WithdrawView),
    ChangePubKey(ChangePubKeyView),
}

/// The mathematical value of a deposit payload.
pub struct DepositView {
    pub from: Seq<u8>,
    pub token: TokenId,
    pub amount: u128,
    pub to: Seq<u8>,
}

/// The mathematical value of a full-exit payload.
pub struct FullExitView {
    pub account_id: AccountId,
    pub eth_address: Seq<u8>,
    pub token: TokenId,
}

pub enum FranklinPriorityOpView {
    Deposit(DepositView),
    FullExit(FullExitView),
}

/// The mathematical value of a priority operation.
pub struct PriorityOpView {
    pub serial_id: u64,
    pub data: FranklinPriorityOpView,
    pub deadline_block: u64,
    pub eth_hash: Seq<u8>,
    pub eth_block: u64,
}

impl View for Transfer {
    type V = TransferView;

    open spec fn view(&self) -> TransferView {
        TransferView {
            from: self.from@,
            to: self.to@,
            token: self.token,
            amount: self.amount,
            fee: self.fee,
            nonce: self.nonce,
            signer_pub_key_hash: self.signer_pub_key_hash@,
        }
    }
}

impl View for Withdraw {
    type V = WithdrawView;

    open spec fn view(&self) -> WithdrawView {
        WithdrawView {
            from: self.from@,
            to: self.to@,
            token: self.token,
            amount: self.amount,
            fee: self.fee,
            nonce: self.nonce,
            signer_pub_key_hash: self.signer_pub_key_hash@,
        }
    }
}

impl View for ChangePubKeyType {
    type V = ChangePubKeyTypeView;

    open spec fn view(&self) -> ChangePubKeyTypeView {
        match self {
            ChangePubKeyType::EthereumSignature { eth_signature } => {
                ChangePubKeyTypeView::EthereumSignature(eth_signature@)
            },
            ChangePubKeyType::Create2Contract { creator_address, salt_arg, code_hash } => {
                ChangePubKeyTypeView::Create2Contract(creator_address@, salt_arg@, code_hash@)
            },
            ChangePubKeyType::OnchainTransaction => ChangePubKeyTypeView::OnchainTransaction,
        }
    }
}

impl View for ChangePubKey {
    type V = ChangePubKeyView;

    open spec fn view(&self) -> ChangePubKeyView {
        ChangePubKeyView {
            account_id: self.account_id,
            account: self.account@,
            new_pk_hash: self.new_pk_hash@,
            fee_token: self.fee_token,
            fee: self.fee,
            nonce: self.nonce,
            change_pubkey_type: self.change_pubkey_type@,
        }
    }
}

impl View for FranklinTx {
    type V = FranklinTxView;

    open spec fn view(&self) -> FranklinTxView {
        match self {
            FranklinTx::Transfer(t) => FranklinTxView::Transfer(t@),
            FranklinTx::Withdraw(w) => FranklinTxView::Withdraw(w@),
            FranklinTx::ChangePubKey(c) => FranklinTxView::ChangePubKey(c@),
        }
    }
}

impl View for Deposit {
    type V = DepositView;

    open spec fn view(&self) -> DepositView {
        DepositView { from: self.from@, token: self.token, amount: self.amount, to: self.to@ }
    }
}

impl View for FullExit {
    type V = FullExitView;

    open spec fn view(&self) -> FullExitView {
        FullExitView {
            account_id: self.account_id,
            eth_address: self.eth_address@,
            token: self.token,
        }
    }
}

impl View for FranklinPriorityOp {
    type V = FranklinPriorityOpView;

    open spec fn view(&self) -> FranklinPriorityOpView {
        match self {
            FranklinPriorityOp::Deposit(d) => FranklinPriorityOpView::Deposit(d@),
            FranklinPriorityOp::FullExit(f) => FranklinPriorityOpView::FullExit(f@),
        }
    }
}

impl View for PriorityOp {
    type V = PriorityOpView;

    open spec fn view(&self) -> PriorityOpView {
        PriorityOpView {
            serial_id: self.serial_id,
            data: self.data@,
            deadline_block: self.deadline_block,
            eth_hash: self.eth_hash@,
            eth_block: self.eth_block,
        }
    }
}

impl Clone for Transfer {
    fn clone(&self) -> (r: Self)
        ensures
            r@ == self@,
    {
        Transfer {
            from: slice_to_vec(self.from.as_slice()),
            to: slice_to_vec(self.to.as_slice()),
            token: self.token,
            amount: self.amount,
            fee: self.fee,
            nonce: self.nonce,
            signer_pub_key_hash: slice_to_vec(self.signer_pub_key_hash.as_slice()),
        }
    }
}

impl Clone for Withdraw {
    fn clone(&self) -> (r: Self)
        ensures
            r@ == self@,
    {
        Withdraw {
            from: slice_to_vec(self.from.as_slice()),
            to: slice_to_vec(self.to.as_slice()),
            token: self.token,
            amount: self.amount,
            fee: self.fee,
            nonce: self.nonce,
            signer_pub_key_hash: slice_to_vec(self.signer_pub_key_hash.as_slice()),
        }
    }
}

impl Clone for ChangePubKeyType {
    fn clone(&self) -> (r: Self)
        ensures
            r@ == self@,
    {
        match self {
            ChangePubKeyType::EthereumSignature { eth_signature } => {
                ChangePubKeyType::EthereumSignature {
                    eth_signature: slice_to_vec(eth_signature.as_slice()),
                }
            },
            ChangePubKeyType::Create2Contract { creator_address, salt_arg, code_hash } => {
                ChangePubKeyType::Create2Contract {
                    creator_address: slice_to_vec(creator_address.as_slice()),
                    salt_arg: slice_to_vec(salt_arg.as_slice()),
                    code_hash: slice_to_vec(code_hash.as_slice()),
                }
            },
            ChangePubKeyType::OnchainTransaction => ChangePubKeyType::OnchainTransaction,
        }
    }
}

impl Clone for ChangePubKey {
    fn clone(&self) -> (r: Self)
        ensures
            r@ == self@,
    {
        ChangePubKey {
            account_id: self.account_id,
            account: slice_to_vec(self.account.as_slice()),
            new_pk_hash: slice_to_vec(self.new_pk_hash.as_slice()),
            fee_token: self.fee_token,
            fee: self.fee,
            nonce: self.nonce,
            change_pubkey_type: self.change_pubkey_type.clone(),
        }
    }
}

impl Clone for FranklinTx {
    fn clone(&self) -> (r: Self)
        ensures
            r@ == self@,
    {
        match self {
            FranklinTx::Transfer(t) => FranklinTx::Transfer(Box::new((**t).clone())),
            FranklinTx::Withdraw(w) => FranklinTx::Withdraw(Box::new((**w).clone())),
            FranklinTx::ChangePubKey(c) => FranklinTx::ChangePubKey(Box::new((**c).clone())),
        }
    }
}

impl Clone for Deposit {
    fn clone(&self) -> (r: Self)
        ensures
            r@ == self@,
    {
        Deposit {
            from: slice_to_vec(self.from.as_slice()),
            token: self.token,
            amount: self.amount,
            to: slice_to_vec(self.to.as_slice()),
        }
    }
}

impl Clone for FullExit {
    fn clone(&self) -> (r: Self)
        ensures
            r@ == self@,
    {
        FullExit {
            account_id: self.account_id,
            eth_address: slice_to_vec(self.eth_address.as_slice()),
            token: self.token,
        }
    }
}

impl Clone for FranklinPriorityOp {
    fn clone(&self) -> (r: Self)
        ensures
            r@ == self@,
    {
        match self {
            FranklinPriorityOp::Deposit(d) => FranklinPriorityOp::Deposit(d.clone()),
            FranklinPriorityOp::FullExit(f) => FranklinPriorityOp::FullExit(f.clone()),
        }
    }
}

impl Clone for PriorityOp {
    fn clone(&self) -> (r: Self)
        ensures
            r@ == self@,
    {
        PriorityOp {
            serial_id: self.serial_id,
            data: self.data.clone(),
            deadline_block: self.deadline_block,
            eth_hash: slice_to_vec(self.eth_hash.as_slice()),
            eth_block: self.eth_block,
        }
    }
}

impl Transfer {
    /// Shape check: field widths and packability of the on-chain-packed
    /// amounts.
    pub fn check_correctness(&self) -> (r: bool)
        ensures
            r == transfer_wf(*self),
    {
        self.from.len() == ADDRESS_BYTES && self.to.len() == ADDRESS_BYTES
            && self.signer_pub_key_hash.len() == PUBKEY_HASH_BYTES
            && crate::packing::is_token_amount_packable(self.amount)
            && crate::packing::is_fee_amount_packable(self.fee)
    }
}

impl Withdraw {
    /// Shape check: field widths and packability of the fee.
    pub fn check_correctness(&self) -> (r: bool)
        ensures
            r == withdraw_wf(*self),
    {
        self.from.len() == ADDRESS_BYTES && self.to.len() == ADDRESS_BYTES
            && self.signer_pub_key_hash.len() == PUBKEY_HASH_BYTES
            && crate::packing::is_fee_amount_packable(self.fee)
    }
}

impl ChangePubKey {
    /// Shape check: field widths, fee packability, witness field widths.
    pub fn check_correctness(&self) -> (r: bool)
        ensures
            r == change_pubkey_wf(*self),
    {
        let type_ok: bool = match &self.change_pubkey_type {
            ChangePubKeyType::EthereumSignature { eth_signature } => eth_signature.len()
                == ETH_SIGNATURE_BYTES,
            ChangePubKeyType::Create2Contract { creator_address, salt_arg, code_hash } => {
                creator_address.len() == ADDRESS_BYTES && salt_arg.len() == HASH32_BYTES
                    && code_hash.len() == HASH32_BYTES
            },
            ChangePubKeyType::OnchainTransaction => true,
        };
        self.account.len() == ADDRESS_BYTES && self.new_pk_hash.len() == PUBKEY_HASH_BYTES
            && crate::packing::is_fee_amount_packable(self.fee) && type_ok
    }
}

impl FranklinTx {
    /// The nonce the transaction spends.
    pub fn nonce(&self) -> (r: Nonce)
        ensures
            r == spec_tx_nonce(*self),
    {
        match self {
            FranklinTx::Transfer(t) => t.nonce,
            FranklinTx::Withdraw(w) => w.nonce,
            FranklinTx::ChangePubKey(c) => c.nonce,
        }
    }
}

/// The nonce a transaction spends.
pub open spec fn spec_tx_nonce(tx: FranklinTx) -> Nonce {
    match tx {
        FranklinTx::Transfer(t) => t.nonce,
        FranklinTx::Withdraw(w) => w.nonce,
        FranklinTx::ChangePubKey(c) => c.nonce,
    }
}

} // verus!
